//! The decisions of the frame loop: what to do about each window event.
//!
//! The loop itself, which waits for events and talks to the window and the
//! graphics device, is the caller's. It hands every event to `handle` and
//! carries out the action that comes back.

use vstd::prelude::*;
use crate::cell::Cell;
use crate::error::ConfigError;
use crate::move_pass::{MovePass, MovePassModel};
use crate::rules::RuleSet;
use crate::world_view::{
    Config,
    ResizeOutcome,
    ScreenSize,
    ViewSnapshot,
    WorldView,
    WorldViewModel,
};

verus! {

/// What the window reports.
#[derive(Clone, Copy, PartialEq, Eq, Debug, Structural)]
pub enum FrameEvent {
    /// The window now has this inner size.
    Resized(ScreenSize),
    /// A frame is due.
    RedrawRequested,
    /// The user asked to close the window.
    CloseRequested,
    /// Anything else.
    Other,
}

/// What the frame loop is to do next.
#[derive(Clone, PartialEq, Eq, Debug)]
pub enum FrameAction {
    /// Configure the presentation surface to `surface`, then ask for a
    /// redraw. `resize` says whether the world could follow the new size.
    Reconfigure { surface: ScreenSize, resize: ResizeOutcome },
    /// Present this image.
    Present(ViewSnapshot),
    /// Leave the loop.
    Exit,
    /// Nothing.
    Idle,
}

/// The size that the presentation surface takes for a window of the given
/// size: the same, but at least one pixel each way.
pub open spec fn spec_surface_size(window_size: ScreenSize) -> ScreenSize {
    ScreenSize {
        width: if window_size.width == 0 {
            1
        } else {
            window_size.width
        },
        height: if window_size.height == 0 {
            1
        } else {
            window_size.height
        },
    }
}

/// Whether an image of the given size has a number of pixels that the
/// machine can count.
pub open spec fn spec_fits(size: ScreenSize) -> bool {
    size.width * size.height <= usize::MAX
}

#[verifier::when_used_as_spec(spec_fits)]
pub fn fits(size: ScreenSize) -> (fits: bool)
    ensures
        fits == spec_fits(size),
{
    assert(size.width * size.height <= u64::MAX) by (nonlinear_arith)
        requires
            size.width <= u32::MAX,
            size.height <= u32::MAX,
    ;
    (size.width as u64) * (size.height as u64) <= usize::MAX as u64
}

#[verifier::when_used_as_spec(spec_surface_size)]
pub fn surface_size(window_size: ScreenSize) -> (surface: ScreenSize)
    ensures
        surface == spec_surface_size(window_size),
{
    ScreenSize {
        width: if window_size.width == 0 {
            1
        } else {
            window_size.width
        },
        height: if window_size.height == 0 {
            1
        } else {
            window_size.height
        },
    }
}

/// The mathematical model of a frame driver.
pub struct FrameDriverModel {
    pub world: WorldViewModel,
    pub pass: MovePassModel,
    pub surface: ScreenSize,
}

impl FrameDriverModel {
    /// The world and the move pass are well formed and fit each other, and
    /// the surface is at least one pixel each way and small enough for an
    /// image of it to be held.
    pub open spec fn wf(self) -> bool {
        &&& self.world.wf()
        &&& self.pass.wf()
        &&& self.pass.spare.same_size(self.world.grid)
        &&& self.surface.width >= 1
        &&& self.surface.height >= 1
        &&& fits(self.surface)
    }
}

/// The state that the frame loop carries from event to event: the world,
/// its update engine, and the size of the presentation surface.
#[derive(Clone, PartialEq, Eq, Debug)]
pub struct FrameDriver {
    world: WorldView,
    pass: MovePass,
    surface: ScreenSize,
}

impl View for FrameDriver {
    type V = FrameDriverModel;

    closed spec fn view(&self) -> FrameDriverModel {
        FrameDriverModel { world: self.world@, pass: self.pass@, surface: self.surface }
    }
}

impl FrameDriver {
    /// Sets up the world and its update engine for a window of the given
    /// size, which is first brought to at least one pixel each way. Fails,
    /// as `WorldView::new` does, on a scale of zero and on a surface smaller
    /// than one cell.
    pub fn new(window_size: ScreenSize, config: &Config, rules: RuleSet) -> (driver: Result<
        FrameDriver,
        ConfigError,
    >)
        requires
            fits(spec_surface_size(window_size)),
        ensures
            config.pixel_scale == 0 ==> driver == Err::<FrameDriver, ConfigError>(
                ConfigError::ZeroScale,
            ),
            config.pixel_scale > 0 && (spec_surface_size(window_size).width < config.pixel_scale
                || spec_surface_size(window_size).height < config.pixel_scale) ==> driver == Err::<
                FrameDriver,
                ConfigError,
            >(ConfigError::ZeroDimension),
            config.pixel_scale > 0 && spec_surface_size(window_size).width >= config.pixel_scale
                && spec_surface_size(window_size).height >= config.pixel_scale ==> driver is Ok,
            driver matches Ok(d) ==> {
                &&& d@.wf()
                &&& d@.surface == spec_surface_size(window_size)
                &&& d@.pass.rules == rules
                &&& forall|i: int|
                    0 <= i < d@.pass.spare.cells.len() ==> d@.pass.spare.cells[i] == Cell::Empty
                &&& d@.world.screen == d@.surface
                &&& d@.world.scale == config.pixel_scale
                &&& d@.world.palette == config.palette
                &&& forall|x: u32, y: u32|
                    x < d@.world.grid.width && y < d@.world.grid.height
                        ==> #[trigger] d@.world.grid.read(x as int, y as int)
                        == config.seed.spec_cell_at(x, y)
            },
    {
        let surface = surface_size(window_size);
        proof {
            if config.pixel_scale > 0 {
                let s = config.pixel_scale as int;
                let w = surface.width as int;
                let h = surface.height as int;
                assert(0 <= w / s <= w && 0 <= h / s <= h) by (nonlinear_arith)
                    requires
                        s > 0,
                        w >= 0,
                        h >= 0,
                ;
                assert((w / s) * (h / s) <= w * h) by (nonlinear_arith)
                    requires
                        0 <= w / s <= w,
                        0 <= h / s <= h,
                ;
            }
        }
        match WorldView::new(surface, config) {
            Ok(world) => {
                let pass = MovePass::new(&world, rules);
                Ok(FrameDriver { world, pass, surface })
            },
            Err(e) => Err(e),
        }
    }

    /// The world as of the last frame.
    pub fn world(&self) -> (world: &WorldView)
        ensures
            world@ == self@.world,
    {
        &self.world
    }

    /// The size that the presentation surface is configured to.
    pub fn surface(&self) -> (surface: ScreenSize)
        ensures
            surface == self@.surface,
    {
        self.surface
    }

    /// Decides what to do about `event`.
    ///
    /// A resize reconfigures the surface and leaves the world as it is. A
    /// redraw advances the world by exactly one generation and then renders
    /// that generation at the size of the surface. A close request ends the
    /// loop. Nothing else has any effect.
    pub fn handle(&mut self, event: FrameEvent) -> (action: FrameAction)
        requires
            old(self)@.wf(),
            event matches FrameEvent::Resized(size) ==> fits(spec_surface_size(size)),
        ensures
            final(self)@.wf(),
            match event {
                FrameEvent::Resized(size) => {
                    &&& final(self)@ == (FrameDriverModel {
                        surface: spec_surface_size(size),
                        ..old(self)@
                    })
                    &&& action == (FrameAction::Reconfigure {
                        surface: spec_surface_size(size),
                        resize: if size == old(self)@.world.screen {
                            ResizeOutcome::Unchanged
                        } else {
                            ResizeOutcome::Unsupported
                        },
                    })
                },
                FrameEvent::RedrawRequested => {
                    &&& final(self)@.surface == old(self)@.surface
                    &&& final(self)@.pass.rules == old(self)@.pass.rules
                    &&& final(self)@.pass.spare == old(self)@.world.grid
                    &&& final(self)@.world == (WorldViewModel {
                        grid: old(self)@.world.grid.step(old(self)@.pass.rules),
                        ..old(self)@.world
                    })
                    &&& action matches FrameAction::Present(image) && final(self)@.world.shown_as(
                        image@,
                        old(self)@.surface,
                    )
                },
                FrameEvent::CloseRequested => final(self)@ == old(self)@ && action
                    == FrameAction::Exit,
                FrameEvent::Other => final(self)@ == old(self)@ && action == FrameAction::Idle,
            },
    {
        match event {
            FrameEvent::Resized(size) => {
                let surface = surface_size(size);
                self.surface = surface;
                let resize = self.world.resize(size);
                FrameAction::Reconfigure { surface, resize }
            },
            FrameEvent::RedrawRequested => {
                let _ = self.pass.execute(&mut self.world);
                let image = self.world.render(self.surface);
                FrameAction::Present(image)
            },
            FrameEvent::CloseRequested => FrameAction::Exit,
            FrameEvent::Other => FrameAction::Idle,
        }
    }
}

} // verus!
