//! The world view: the committed generation together with what is needed
//! to show it, and the mapping from cells to display pixels.

use vstd::prelude::*;
use crate::cell::Cell;
use crate::error::{ConfigError, StepError};
use crate::grid::{Grid, GridModel, cell_codes, row_major, slot};
use crate::upload::{native_layout, words_as_bytes};

verus! {

/// A size in display pixels.
#[derive(Clone, Copy, PartialEq, Eq, Debug, Structural)]
pub struct ScreenSize {
    pub width: u32,
    pub height: u32,
}

/// The rectangle of cells that a new world starts with: every cell with
/// `x_min <= x <= x_max` and `y_min <= y <= y_max` holds `fill`, every other
/// cell is empty.
#[derive(Clone, Copy, PartialEq, Eq, Debug, Structural)]
pub struct SeedRegion {
    pub x_min: u32,
    pub x_max: u32,
    pub y_min: u32,
    pub y_max: u32,
    pub fill: Cell,
}

impl SeedRegion {
    pub open spec fn spec_cell_at(self, x: u32, y: u32) -> Cell {
        if self.x_min <= x <= self.x_max && self.y_min <= y <= self.y_max {
            self.fill
        } else {
            Cell::Empty
        }
    }

    /// What the seed puts at `(x, y)`.
    #[verifier::when_used_as_spec(spec_cell_at)]
    pub fn cell_at(self, x: u32, y: u32) -> (cell: Cell)
        ensures
            cell == self.spec_cell_at(x, y),
    {
        if self.x_min <= x && x <= self.x_max && self.y_min <= y && y <= self.y_max {
            self.fill
        } else {
            Cell::Empty
        }
    }
}

/// The colour of each kind of cell: one 32-bit texel each, alpha in the
/// most significant byte, then red, green and blue.
#[derive(Clone, Copy, PartialEq, Eq, Debug, Structural)]
pub struct Palette {
    pub empty: u32,
    pub sand: u32,
    pub solid: u32,
}

impl Palette {
    pub open spec fn spec_color(self, cell: Cell) -> u32 {
        match cell {
            Cell::Empty => self.empty,
            Cell::Sand => self.sand,
            Cell::Solid => self.solid,
        }
    }

    /// The colour that `cell` is shown in.
    #[verifier::when_used_as_spec(spec_color)]
    pub fn color(self, cell: Cell) -> (color: u32)
        ensures
            color == self.spec_color(cell),
    {
        match cell {
            Cell::Empty => self.empty,
            Cell::Sand => self.sand,
            Cell::Solid => self.solid,
        }
    }
}

/// What a world is built from.
#[derive(Clone, Copy, PartialEq, Eq, Debug, Structural)]
pub struct Config {
    /// Display pixels per cell, along each axis.
    pub pixel_scale: u32,
    pub seed: SeedRegion,
    pub palette: Palette,
}

impl Default for Config {
    /// Five pixels per cell, a block of sand below the top-left corner, sand
    /// in ochre on black.
    fn default() -> (config: Config)
        ensures
            config == (Config {
                pixel_scale: 5,
                seed: SeedRegion { x_min: 51, x_max: 69, y_min: 51, y_max: 79, fill: Cell::Sand },
                palette: Palette { empty: 0xff000000, sand: 0xffc2b280, solid: 0xff808080 },
            }),
    {
        Config {
            pixel_scale: 5,
            seed: SeedRegion { x_min: 51, x_max: 69, y_min: 51, y_max: 79, fill: Cell::Sand },
            palette: Palette { empty: 0xff000000, sand: 0xffc2b280, solid: 0xff808080 },
        }
    }
}

/// What `resize` found.
#[derive(Clone, Copy, PartialEq, Eq, Debug, Structural)]
pub enum ResizeOutcome {
    /// The size asked for is the size the world was built for.
    Unchanged,
    /// The size differs. Resizing is not supported: the world keeps its grid
    /// and its scale, and `render` goes on mapping pixels to cells as before.
    Unsupported,
}

/// The mathematical model of a display image: `width * height` colours
/// stored row by row.
pub struct SnapshotModel {
    pub width: int,
    pub height: int,
    pub pixels: Seq<u32>,
}

impl SnapshotModel {
    pub open spec fn wf(self) -> bool {
        &&& 0 <= self.width
        &&& 0 <= self.height
        &&& self.pixels.len() == self.width * self.height
    }

    /// The colour of the pixel at `(px, py)`.
    pub open spec fn pixel(self, px: int, py: int) -> u32 {
        self.pixels[slot(self.width, px, py)]
    }
}

/// A display-sized image of one committed generation. It holds colours
/// only and does not refer back to the grid it was made from.
#[derive(Clone, PartialEq, Eq, Debug)]
pub struct ViewSnapshot {
    width: u32,
    height: u32,
    pixels: Vec<u32>,
}

impl View for ViewSnapshot {
    type V = SnapshotModel;

    closed spec fn view(&self) -> SnapshotModel {
        SnapshotModel {
            width: self.width as int,
            height: self.height as int,
            pixels: self.pixels@,
        }
    }
}

impl ViewSnapshot {
    pub fn width(&self) -> (width: u32)
        ensures
            width == self@.width,
    {
        self.width
    }

    pub fn height(&self) -> (height: u32)
        ensures
            height == self@.height,
    {
        self.height
    }

    /// The colours, row by row.
    pub fn pixels(&self) -> (pixels: &Vec<u32>)
        ensures
            pixels@ == self@.pixels,
    {
        &self.pixels
    }

    /// The image as the bytes that are written to the presentation surface:
    /// four bytes per pixel, row by row, in the byte order of the machine.
    pub fn bytes(&self) -> (bytes: Vec<u8>)
        ensures
            native_layout(self@.pixels, bytes@),
    {
        words_as_bytes(&self.pixels)
    }
}

/// The mathematical model of a world view.
pub struct WorldViewModel {
    pub screen: ScreenSize,
    pub scale: int,
    pub palette: Palette,
    pub grid: GridModel,
}

impl WorldViewModel {
    /// The scale is positive and the grid is the screen divided by the
    /// scale, rounded down.
    pub open spec fn wf(self) -> bool {
        &&& 0 < self.scale
        &&& self.grid.wf()
        &&& self.grid.width == self.screen.width as int / self.scale
        &&& self.grid.height == self.screen.height as int / self.scale
    }

    /// The cell shown at display pixel `(px, py)`: the cell that the pixel
    /// falls into, or the nearest cell of the grid where it falls beyond the
    /// last column or row.
    pub open spec fn cell_under(self, px: int, py: int) -> Cell {
        let x = px / self.scale;
        let y = py / self.scale;
        self.grid.read(
            if x < self.grid.width {
                x
            } else {
                self.grid.width - 1
            },
            if y < self.grid.height {
                y
            } else {
                self.grid.height - 1
            },
        )
    }

    /// The colour of display pixel `(px, py)`.
    pub open spec fn color_at(self, px: int, py: int) -> u32 {
        self.palette.spec_color(self.cell_under(px, py))
    }

    /// Whether `image` is the picture of this world on a display of the
    /// given size: of that size, every pixel in the colour of the cell under
    /// it.
    pub open spec fn shown_as(self, image: SnapshotModel, display_size: ScreenSize) -> bool {
        &&& image.wf()
        &&& image.width == display_size.width
        &&& image.height == display_size.height
        &&& forall|px: u32, py: u32|
            px < display_size.width && py < display_size.height ==> #[trigger] image.pixel(
                px as int,
                py as int,
            ) == self.color_at(px as int, py as int)
    }
}

/// The committed generation of the simulated world and its mapping to the
/// display.
///
/// Readers only ever see a whole generation: the grid is replaced in one
/// piece by `commit`, never written in place.
#[derive(Clone, PartialEq, Eq, Debug)]
pub struct WorldView {
    screen: ScreenSize,
    scale: u32,
    palette: Palette,
    grid: Grid,
}

impl View for WorldView {
    type V = WorldViewModel;

    closed spec fn view(&self) -> WorldViewModel {
        WorldViewModel {
            screen: self.screen,
            scale: self.scale as int,
            palette: self.palette,
            grid: self.grid@,
        }
    }
}

impl WorldView {
    /// Builds the world for a display of `screen_size`: a grid of one cell
    /// per `pixel_scale` by `pixel_scale` block of pixels, filled from the
    /// seed.
    ///
    /// Fails with `ZeroScale` when the scale is zero, and with
    /// `ZeroDimension` when the display is smaller than one cell in either
    /// direction.
    pub fn new(screen_size: ScreenSize, config: &Config) -> (world: Result<WorldView, ConfigError>)
        requires
            config.pixel_scale > 0 ==> (screen_size.width / config.pixel_scale) * (
            screen_size.height / config.pixel_scale) <= usize::MAX,
        ensures
            config.pixel_scale == 0 ==> world == Err::<WorldView, ConfigError>(
                ConfigError::ZeroScale,
            ),
            config.pixel_scale > 0 && (screen_size.width < config.pixel_scale || screen_size.height
                < config.pixel_scale) ==> world == Err::<WorldView, ConfigError>(
                ConfigError::ZeroDimension,
            ),
            config.pixel_scale > 0 && screen_size.width >= config.pixel_scale && screen_size.height
                >= config.pixel_scale ==> world is Ok,
            world matches Ok(w) ==> {
                &&& w@.wf()
                &&& w@.screen == screen_size
                &&& w@.scale == config.pixel_scale
                &&& w@.palette == config.palette
                &&& forall|x: u32, y: u32|
                    x < w@.grid.width && y < w@.grid.height ==> #[trigger] w@.grid.read(
                        x as int,
                        y as int,
                    ) == config.seed.spec_cell_at(x, y)
            },
    {
        if config.pixel_scale == 0 {
            return Err(ConfigError::ZeroScale);
        }
        let width: u32 = screen_size.width / config.pixel_scale;
        let height: u32 = screen_size.height / config.pixel_scale;
        proof {
            let s = config.pixel_scale as int;
            assert(screen_size.width < s <==> screen_size.width as int / s == 0)
                by (nonlinear_arith)
                requires
                    s > 0,
                    screen_size.width >= 0,
            ;
            assert(screen_size.height < s <==> screen_size.height as int / s == 0)
                by (nonlinear_arith)
                requires
                    s > 0,
                    screen_size.height >= 0,
            ;
        }
        let seed = config.seed;
        let seed_at = |x: u32, y: u32| -> (cell: Cell)
            ensures cell == seed.spec_cell_at(x, y)
        {
            seed.cell_at(x, y)
        };
        let made = Grid::create(width, height, seed_at);
        match made {
            Ok(grid) => Ok(
                WorldView {
                    screen: screen_size,
                    scale: config.pixel_scale,
                    palette: config.palette,
                    grid,
                },
            ),
            Err(e) => Err(e),
        }
    }

    /// The committed generation.
    pub fn grid(&self) -> (grid: &Grid)
        ensures
            grid@ == self@.grid,
    {
        &self.grid
    }

    /// The width and height of the grid, in cells.
    pub fn size(&self) -> (size: (u32, u32))
        ensures
            size.0 == self@.grid.width,
            size.1 == self@.grid.height,
    {
        (self.grid.width(), self.grid.height())
    }

    /// The display size that the world was built for.
    pub fn screen_size(&self) -> (screen: ScreenSize)
        ensures
            screen == self@.screen,
    {
        self.screen
    }

    /// Display pixels per cell.
    pub fn pixel_scale(&self) -> (scale: u32)
        ensures
            scale == self@.scale,
    {
        self.scale
    }

    /// Replaces the committed generation by `next`, all at once, and leaves
    /// the generation that was committed before in `next`, whose storage is
    /// then free to take the output of the following step.
    ///
    /// Refused, with nothing changed, when `next` is not of the size of the
    /// committed generation.
    pub fn commit(&mut self, next: &mut Grid) -> (outcome: Result<(), StepError>)
        requires
            old(self)@.wf(),
            old(next)@.wf(),
        ensures
            final(self)@.wf(),
            final(next)@.wf(),
            outcome is Ok <==> old(next)@.same_size(old(self)@.grid),
            outcome is Ok ==> final(self)@ == (WorldViewModel {
                grid: old(next)@,
                ..old(self)@
            }) && final(next)@ == old(self)@.grid,
            outcome is Err ==> outcome == Err::<(), StepError>(StepError::SizeMismatch)
                && final(self)@ == old(self)@ && final(next)@ == old(next)@,
    {
        if next.width() != self.grid.width() || next.height() != self.grid.height() {
            return Err(StepError::SizeMismatch);
        }
        std::mem::swap(&mut self.grid, next);
        Ok(())
    }

    /// Takes note of a new display size. Resizing is not supported: the
    /// world is left exactly as it was, and the outcome says whether the
    /// size asked for differs from the one the world was built for.
    pub fn resize(&mut self, new_size: ScreenSize) -> (outcome: ResizeOutcome)
        ensures
            final(self)@ == old(self)@,
            outcome == if new_size == old(self)@.screen {
                ResizeOutcome::Unchanged
            } else {
                ResizeOutcome::Unsupported
            },
    {
        if new_size.width == self.screen.width && new_size.height == self.screen.height {
            ResizeOutcome::Unchanged
        } else {
            ResizeOutcome::Unsupported
        }
    }

    /// The colour of display pixel `(px, py)`.
    pub fn color_at(&self, px: u32, py: u32) -> (color: u32)
        requires
            self@.wf(),
        ensures
            color == self@.color_at(px as int, py as int),
    {
        let width = self.grid.width();
        let height = self.grid.height();
        let x: u32 = px / self.scale;
        let y: u32 = py / self.scale;
        let x: u32 = if x < width {
            x
        } else {
            width - 1
        };
        let y: u32 = if y < height {
            y
        } else {
            height - 1
        };
        self.palette.color(self.grid.read(x as i64, y as i64))
    }

    /// The image of the committed generation for a display of the given
    /// size: every pixel in the colour of the cell under it. The world is not
    /// changed.
    pub fn render(&self, display_size: ScreenSize) -> (image: ViewSnapshot)
        requires
            self@.wf(),
            display_size.width * display_size.height <= usize::MAX,
        ensures
            self@.shown_as(image@, display_size),
    {
        let color_of_pixel = |px: u32, py: u32| -> (color: u32)
            ensures color == self@.color_at(px as int, py as int)
        {
            self.color_at(px, py)
        };
        let pixels = row_major(display_size.width, display_size.height, color_of_pixel);
        ViewSnapshot { width: display_size.width, height: display_size.height, pixels }
    }

    /// The cell codes of the committed generation as the bytes of the
    /// buffer that is uploaded to the graphics device: four bytes per cell,
    /// in storage order, in the byte order of the machine.
    pub fn buffer_contents(&self) -> (bytes: Vec<u8>)
        ensures
            native_layout(cell_codes(self@.grid.cells), bytes@),
    {
        let codes = self.grid.codes();
        words_as_bytes(&codes)
    }
}

} // verus!
