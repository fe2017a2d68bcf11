//! The update engine: one step computes a whole new generation from the
//! current one, into storage disjoint from it.
//!
//! A step is dispatched as a rectangle of workgroups, each evaluating a
//! square tile of cells. An invocation whose coordinate falls outside the
//! grid writes nothing.

use vstd::prelude::*;
use crate::cell::Cell;
use crate::conservation::lemma_step_conserves_cells;
use crate::error::StepError;
use crate::grid::{Grid, GridModel, lemma_position_of_index};
use crate::rules::RuleSet;
use crate::world_view::{WorldView, WorldViewModel};

verus! {

/// The side of the square tile of cells that one workgroup evaluates.
pub const WORKGROUP_SIZE: u32 = 8;

/// How many workgroups are needed along a dimension of `extent` cells:
/// `extent / WORKGROUP_SIZE`, rounded up.
pub open spec fn groups_along(extent: int) -> int {
    (extent + WORKGROUP_SIZE - 1) / (WORKGROUP_SIZE as int)
}

/// Whether `(x, y)` lies in the tile of workgroup `(gx, gy)`.
pub open spec fn in_workgroup(gx: int, gy: int, x: int, y: int) -> bool {
    &&& gx * WORKGROUP_SIZE <= x < gx * WORKGROUP_SIZE + WORKGROUP_SIZE
    &&& gy * WORKGROUP_SIZE <= y < gy * WORKGROUP_SIZE + WORKGROUP_SIZE
}

/// Whether a dispatch of `groups` workgroups reaches every cell of `g`.
pub open spec fn covers(groups: (u32, u32), g: GridModel) -> bool {
    groups.0 * WORKGROUP_SIZE >= g.width && groups.1 * WORKGROUP_SIZE >= g.height
}

/// How a dispatch ends: refused when the buffers differ in size, refused
/// when the workgroups do not cover the grid, otherwise carried out.
pub open spec fn dispatch_outcome(current: GridModel, out: GridModel, groups: (u32, u32)) -> Result<
    (),
    StepError,
> {
    if !out.same_size(current) {
        Err(StepError::SizeMismatch)
    } else if !covers(groups, current) {
        Err(StepError::ExtentMismatch)
    } else {
        Ok(())
    }
}

fn groups_for(extent: u32) -> (groups: u32)
    ensures
        groups == groups_along(extent as int),
        groups * WORKGROUP_SIZE >= extent,
{
    if extent % WORKGROUP_SIZE == 0 {
        extent / WORKGROUP_SIZE
    } else {
        extent / WORKGROUP_SIZE + 1
    }
}

/// The number of workgroups to dispatch, per dimension, for a step on
/// `grid`.
pub fn work_group_dim(grid: &Grid) -> (groups: (u32, u32))
    ensures
        groups.0 == groups_along(grid@.width),
        groups.1 == groups_along(grid@.height),
        covers(groups, grid@),
{
    (groups_for(grid.width()), groups_for(grid.height()))
}

impl RuleSet {
    /// Evaluates the tile of workgroup `(gx, gy)`: every cell of the tile
    /// that lies inside the grid is written to `out`, and nothing else is.
    fn run_workgroup(&self, current: &Grid, out: &mut Grid, gx: u32, gy: u32)
        requires
            current@.wf(),
            old(out)@.wf(),
            old(out)@.same_size(current@),
        ensures
            final(out)@.wf(),
            final(out)@.same_size(current@),
            forall|cx: int, cy: int|
                #[trigger] final(out)@.read(cx, cy) == if current@.in_bounds(cx, cy)
                    && in_workgroup(gx as int, gy as int, cx, cy) {
                    current@.next_cell(*self, cx, cy)
                } else {
                    old(out)@.read(cx, cy)
                },
    {
        let width = current.width();
        let height = current.height();
        let ghost before = out@;
        let mut ly: u32 = 0;
        while ly < WORKGROUP_SIZE
            invariant
                ly <= WORKGROUP_SIZE,
                current@.wf(),
                out@.wf(),
                out@.same_size(current@),
                width == current@.width,
                height == current@.height,
                forall|cx: int, cy: int|
                    #[trigger] out@.read(cx, cy) == if current@.in_bounds(cx, cy) && in_workgroup(
                        gx as int,
                        gy as int,
                        cx,
                        cy,
                    ) && cy < gy * WORKGROUP_SIZE + ly {
                        current@.next_cell(*self, cx, cy)
                    } else {
                        before.read(cx, cy)
                    },
            decreases WORKGROUP_SIZE - ly,
        {
            let mut lx: u32 = 0;
            while lx < WORKGROUP_SIZE
                invariant
                    ly < WORKGROUP_SIZE,
                    lx <= WORKGROUP_SIZE,
                    current@.wf(),
                    out@.wf(),
                    out@.same_size(current@),
                    width == current@.width,
                    height == current@.height,
                    forall|cx: int, cy: int|
                        #[trigger] out@.read(cx, cy) == if current@.in_bounds(cx, cy)
                            && in_workgroup(gx as int, gy as int, cx, cy) && (cy < gy * WORKGROUP_SIZE + ly || (cy
                            == gy * WORKGROUP_SIZE + ly && cx < gx * WORKGROUP_SIZE + lx)) {
                            current@.next_cell(*self, cx, cy)
                        } else {
                            before.read(cx, cy)
                        },
                decreases WORKGROUP_SIZE - lx,
            {
                let x: u64 = gx as u64 * WORKGROUP_SIZE as u64 + lx as u64;
                let y: u64 = gy as u64 * WORKGROUP_SIZE as u64 + ly as u64;
                if x < width as u64 && y < height as u64 {
                    let cell = self.next_cell(current, x as u32, y as u32);
                    out.write(x as u32, y as u32, cell);
                }
                lx = lx + 1;
            }
            ly = ly + 1;
        }
    }

    /// Runs one step as a dispatch of `groups` workgroups, reading `current`
    /// and writing the next generation to `out`.
    ///
    /// The dispatch is refused, and `out` left as it was, when `out` is not
    /// of the size of `current` or when the workgroups do not cover the grid.
    pub fn dispatch(&self, current: &Grid, out: &mut Grid, groups: (u32, u32)) -> (outcome: Result<
        (),
        StepError,
    >)
        requires
            current@.wf(),
            old(out)@.wf(),
        ensures
            final(out)@.wf(),
            outcome == dispatch_outcome(current@, old(out)@, groups),
            outcome is Ok ==> final(out)@ == current@.step(*self),
            outcome is Err ==> final(out)@ == old(out)@,
    {
        let width = current.width();
        let height = current.height();
        if out.width() != width || out.height() != height {
            return Err(StepError::SizeMismatch);
        }
        if (groups.0 as u64) * (WORKGROUP_SIZE as u64) < width as u64 || (groups.1 as u64) * (
        WORKGROUP_SIZE as u64) < height as u64 {
            return Err(StepError::ExtentMismatch);
        }
        let mut gy: u32 = 0;
        while gy < groups.1
            invariant
                gy <= groups.1,
                covers(groups, current@),
                current@.wf(),
                out@.wf(),
                out@.same_size(current@),
                forall|cx: int, cy: int|
                    current@.in_bounds(cx, cy) && cy < gy * WORKGROUP_SIZE ==> #[trigger] out@.read(cx, cy)
                        == current@.next_cell(*self, cx, cy),
            decreases groups.1 - gy,
        {
            let mut gx: u32 = 0;
            while gx < groups.0
                invariant
                    gy < groups.1,
                    gx <= groups.0,
                    covers(groups, current@),
                    current@.wf(),
                    out@.wf(),
                    out@.same_size(current@),
                    forall|cx: int, cy: int|
                        current@.in_bounds(cx, cy) && (cy < gy * WORKGROUP_SIZE || (cy < gy
                            * WORKGROUP_SIZE + WORKGROUP_SIZE && cx < gx * WORKGROUP_SIZE)) ==> #[trigger] out@.read(cx, cy) == current@.next_cell(
                            *self,
                            cx,
                            cy,
                        ),
                decreases groups.0 - gx,
            {
                self.run_workgroup(current, out, gx, gy);
                gx = gx + 1;
            }
            gy = gy + 1;
        }
        proof {
            let next = current@.step(*self);
            assert forall|i: int| 0 <= i < next.cells.len() implies out@.cells[i]
                == next.cells[i] by {
                lemma_position_of_index(current@, i);
                let x = current@.column(i);
                let y = current@.row(i);
                assert(out@.read(x, y) == current@.next_cell(*self, x, y));
                assert(out@.index(x, y) == i);
            }
            assert(out@.cells =~= next.cells);
        }
        Ok(())
    }

    /// The generation that follows `current`: the same rectangle, holding
    /// the same cells, each where the rules have moved it.
    pub fn step(&self, current: &Grid) -> (next: Grid)
        requires
            current@.wf(),
        ensures
            next@.wf(),
            next@ == current@.step(*self),
            next@.cells.to_multiset() == current@.cells.to_multiset(),
    {
        let mut out = current.blank_like();
        let groups = work_group_dim(current);
        let _ = self.dispatch(current, &mut out, groups);
        proof {
            lemma_step_conserves_cells(current@, *self);
        }
        out
    }
}

/// The mathematical model of a move pass.
pub struct MovePassModel {
    pub rules: RuleSet,
    pub spare: GridModel,
}

impl MovePassModel {
    pub open spec fn wf(self) -> bool {
        self.spare.wf()
    }
}

/// The update engine of one world: its rule set, and the buffer that the
/// next step writes to.
///
/// The buffer is never the storage of the committed generation. After a
/// step the two change places, so that the generation just superseded
/// becomes the buffer of the step after.
#[derive(Clone, PartialEq, Eq, Debug)]
pub struct MovePass {
    rules: RuleSet,
    spare: Grid,
}

impl View for MovePass {
    type V = MovePassModel;

    closed spec fn view(&self) -> MovePassModel {
        MovePassModel { rules: self.rules, spare: self.spare@ }
    }
}

impl MovePass {
    /// A move pass for `view`, with an output buffer of the size of its
    /// grid.
    pub fn new(view: &WorldView, rules: RuleSet) -> (pass: MovePass)
        requires
            view@.wf(),
        ensures
            pass@.wf(),
            pass@.rules == rules,
            pass@.spare.same_size(view@.grid),
            forall|i: int| 0 <= i < pass@.spare.cells.len() ==> pass@.spare.cells[i] == Cell::Empty,
    {
        MovePass { rules, spare: view.grid().blank_like() }
    }

    pub fn rules(&self) -> (rules: RuleSet)
        ensures
            rules == self@.rules,
    {
        self.rules
    }

    /// Advances `view` by one generation: computes the next generation from
    /// the committed one into the output buffer, then commits it.
    ///
    /// Refused, with nothing changed, when the output buffer is not of the
    /// size of the committed generation.
    pub fn execute(&mut self, view: &mut WorldView) -> (outcome: Result<(), StepError>)
        requires
            old(self)@.wf(),
            old(view)@.wf(),
        ensures
            final(self)@.wf(),
            final(view)@.wf(),
            final(self)@.rules == old(self)@.rules,
            outcome is Ok <==> old(self)@.spare.same_size(old(view)@.grid),
            outcome is Ok ==> {
                &&& final(view)@ == (WorldViewModel {
                    grid: old(view)@.grid.step(old(self)@.rules),
                    ..old(view)@
                })
                &&& final(self)@.spare == old(view)@.grid
                &&& final(view)@.grid.cells.to_multiset() == old(view)@.grid.cells.to_multiset()
            },
            outcome is Err ==> outcome == Err::<(), StepError>(StepError::SizeMismatch)
                && final(view)@ == old(view)@ && final(self)@ == old(self)@,
    {
        let rules = self.rules;
        let groups = work_group_dim(view.grid());
        proof {
            lemma_step_conserves_cells(view@.grid, rules);
        }
        match rules.dispatch(view.grid(), &mut self.spare, groups) {
            Ok(()) => view.commit(&mut self.spare),
            Err(e) => Err(e),
        }
    }
}

} // verus!
