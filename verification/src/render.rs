//! What the engine tells a renderer about its phases and its scale. The
//! rendering itself is not part of this library.

use vstd::prelude::*;
use crate::vector::IVec2;

verus! {

/// The schedule that draws a frame.
#[derive(Debug, Default, Clone, Copy, PartialEq, Eq, PartialOrd, Ord, Hash)]
pub struct Render;

/// The schedule that assembles the postprocessing of a pixel.
#[derive(Debug, Default, Clone, Copy, PartialEq, Eq, PartialOrd, Ord, Hash)]
pub struct BuildPostprocess;

/// The parts of `Render`, in the order in which they run.
#[derive(Debug, Clone, Copy, PartialEq, Eq, Structural, PartialOrd, Ord, Hash)]
pub enum RenderPhase {
    Light,
    Postprocess,
}

impl RenderPhase {
    /// The place of the phase in the order.
    pub open spec fn spec_rank(self) -> int {
        match self {
            RenderPhase::Light => 0,
            RenderPhase::Postprocess => 1,
        }
    }

    /// The phases in the order in which they run.
    pub fn chain() -> (phases: [RenderPhase; 2])
        ensures
            forall|i: int| 0 <= i < 2 ==> (#[trigger] phases[i]).spec_rank() == i,
    {
        [RenderPhase::Light, RenderPhase::Postprocess]
    }
}

/// The parts of `BuildPostprocess`.
#[derive(Debug, Clone, Copy, PartialEq, Eq, Structural, PartialOrd, Ord, Hash)]
pub enum PostprocessPhase {
    Tonemap,
}

/// How many pixels a cell is wide and high.
#[derive(Debug, Clone, Copy)]
pub struct RenderConstants {
    pub scaling: u32,
}

impl Default for RenderConstants {
    fn default() -> (constants: RenderConstants)
        ensures
            constants.scaling == 12,
    {
        RenderConstants { scaling: 12 }
    }
}

/// The cell and the place within the cell that a pixel shows.
#[derive(Debug, Clone, Copy)]
pub struct Upscaled {
    /// The cell, counted from the first cell in view.
    pub cell: (u32, u32),
    /// The pixel's place within the cell.
    pub subcell: (u32, u32),
}

impl RenderConstants {
    /// The cell and the place within it that a pixel shows: the pixel's
    /// position, counted upwards from the bottom row of the screen and moved
    /// by `offset`, divided by the scaling.
    pub open spec fn spec_upscale(self, pixel: (u32, u32), screen_height: u32, offset: (u32, u32)) -> Upscaled {
        let x = pixel.0 + offset.0;
        let y = screen_height - 1 - pixel.1 + offset.1;
        Upscaled {
            cell: ((x / self.scaling as int) as u32, (y / self.scaling as int) as u32),
            subcell: ((x % self.scaling as int) as u32, (y % self.scaling as int) as u32),
        }
    }

    /// The cell and the place within it that a pixel shows, or `None`
    /// exactly when the scaling is zero, the pixel is not on the screen, or
    /// the moved position does not fit in 32 bits.
    pub fn upscale(&self, pixel: (u32, u32), screen_height: u32, offset: (u32, u32)) -> (shown:
        Option<Upscaled>)
        ensures
            shown.is_some() <==> self.scaling > 0 && pixel.1 < screen_height && pixel.0 + offset.0
                <= u32::MAX && screen_height - 1 - pixel.1 + offset.1 <= u32::MAX,
            shown.is_some() ==> shown.unwrap() == self.spec_upscale(pixel, screen_height, offset),
            shown.is_some() ==> shown.unwrap().subcell.0 < self.scaling && shown.unwrap().subcell.1
                < self.scaling,
    {
        if self.scaling == 0 || pixel.1 >= screen_height {
            return None;
        }
        let x: u64 = pixel.0 as u64 + offset.0 as u64;
        let y: u64 = (screen_height - 1 - pixel.1) as u64 + offset.1 as u64;
        if x > u32::MAX as u64 || y > u32::MAX as u64 {
            return None;
        }
        let scaling: u64 = self.scaling as u64;
        Some(
            Upscaled {
                cell: ((x / scaling) as u32, (y / scaling) as u32),
                subcell: ((x % scaling) as u32, (y % scaling) as u32),
            },
        )
    }
}

/// Where the lit region lies: the cell at its lower left corner.
#[derive(Debug, Copy, Clone, PartialEq, Eq, Structural)]
pub struct LightParameters {
    pub offset: IVec2,
}

impl LightParameters {
    /// Centres the lit region, a square of `trace_size` pixels with
    /// `scaling` pixels to a cell, on the cell `center`.
    pub fn set_center(&mut self, trace_size: u32, scaling: u32, center: IVec2)
        requires
            scaling > 0,
            i32::MIN <= center.x - (trace_size / 2) / scaling,
            i32::MIN <= center.y - (trace_size / 2) / scaling,
        ensures
            final(self).offset.x == center.x - (trace_size / 2) / scaling,
            final(self).offset.y == center.y - (trace_size / 2) / scaling,
    {
        let half: i64 = ((trace_size / 2) / scaling) as i64;
        self.offset = IVec2 {
            x: (center.x as i64 - half) as i32,
            y: (center.y as i64 - half) as i32,
        };
    }
}

impl Default for LightParameters {
    fn default() -> (parameters: LightParameters)
        ensures
            parameters.offset == (IVec2 { x: 0, y: 0 }),
    {
        LightParameters { offset: IVec2 { x: 0, y: 0 } }
    }
}

} // verus!
