//! The back buffer that cover and video are painted on before they are
//! copied to the window.
//!
//! `D` is a drawing context of the back buffer.

use vstd::prelude::*;

use crate::preview::geometry::Rect;

verus! {

/// A back buffer and its size.
pub struct BackBuffer<D> {
    pub dc: D,
    pub width: i32,
    pub height: i32,
}

/// The cached back buffer, if there is one.
pub struct Surface<D> {
    pub buffer: Option<BackBuffer<D>>,
}

/// What preparing the surface amounts to.
#[derive(Debug, Clone, Copy, PartialEq, Eq, Structural)]
pub enum Preparation {
    /// There is nothing to paint on.
    Refuse,
    /// The cached buffer has the right size.
    Reuse,
    /// A buffer of the new size has to be made.
    Allocate,
}

/// What has to be undone when making a back buffer fails.
#[derive(Debug, Clone, Copy, PartialEq, Eq, Structural)]
pub struct Cleanup {
    pub delete_dc: bool,
    pub delete_bitmap: bool,
}

/// Handle values of the steps of making a back buffer: the memory
/// context, the bitmap, and the object that the bitmap replaced in the
/// context. A step is `None` where the one before it failed.
#[derive(Debug, Clone, Copy, PartialEq, Eq, Structural)]
pub struct BufferSteps {
    pub dc: isize,
    pub bitmap: Option<isize>,
    pub previous: Option<isize>,
}

/// Did every step succeed? Handles are not null, and selecting the
/// bitmap did not report an error, which is minus one.
pub open spec fn all_made(steps: BufferSteps) -> bool {
    &&& steps.dc != 0
    &&& steps.bitmap matches Some(bitmap) && bitmap != 0
    &&& steps.previous matches Some(previous) && previous != 0 && previous != -1
}

/// Judges the making of a back buffer. On failure, what had been made is
/// deleted again.
pub fn judge_buffer(steps: BufferSteps) -> (made: Result<(), Cleanup>)
    ensures
        match made {
            Ok(_) => all_made(steps),
            Err(cleanup) => {
                &&& !all_made(steps)
                &&& cleanup.delete_dc == (steps.dc != 0)
                &&& cleanup.delete_bitmap == (steps.dc != 0 && (steps.bitmap matches Some(bitmap)
                    && bitmap != 0))
            },
        },
        made is Ok <==> steps.dc != 0 && (steps.bitmap matches Some(bitmap) && bitmap != 0) && (
        steps.previous matches Some(previous) && previous != 0 && previous != -1),
{
    if steps.dc == 0 {
        return Err(Cleanup { delete_dc: false, delete_bitmap: false });
    }
    match steps.bitmap {
        Some(bitmap) if bitmap != 0 => match steps.previous {
            Some(previous) if previous != 0 && previous != -1 => Ok(()),
            _ => Err(Cleanup { delete_dc: true, delete_bitmap: true }),
        },
        _ => Err(Cleanup { delete_dc: true, delete_bitmap: false }),
    }
}

impl<D> Surface<D> {
    pub fn new() -> (surface: Surface<D>)
        ensures
            surface.buffer is None,
    {
        Surface { buffer: None }
    }

    /// Is there a buffer of exactly this size?
    pub open spec fn has_size(self, width: int, height: int) -> bool {
        self.buffer matches Some(buffer) && buffer.width == width && buffer.height == height
    }

    /// Decides how the surface gets ready for a painting of this size.
    pub fn plan(&self, width: i32, height: i32) -> (plan: Preparation)
        ensures
            plan == if width <= 0 || height <= 0 {
                Preparation::Refuse
            } else if self.has_size(width as int, height as int) {
                Preparation::Reuse
            } else {
                Preparation::Allocate
            },
            plan is Reuse <==> width > 0 && height > 0 && (self.buffer matches Some(buffer)
                && buffer.width == width && buffer.height == height),
            plan is Refuse <==> width <= 0 || height <= 0,
    {
        if width <= 0 || height <= 0 {
            return Preparation::Refuse;
        }
        match &self.buffer {
            Some(buffer) if buffer.width == width && buffer.height == height => Preparation::Reuse,
            _ => Preparation::Allocate,
        }
    }

    /// Takes a new buffer of this size and gives back the one that it
    /// replaces. If none could be made, the old one stays: the window is
    /// never cleared.
    pub fn replace(&mut self, made: Option<D>, width: i32, height: i32) -> (replaced: Option<
        BackBuffer<D>,
    >)
        ensures
            match made {
                Some(dc) => {
                    &&& final(self).buffer == Some(BackBuffer { dc, width, height })
                    &&& replaced == old(self).buffer
                },
                None => final(self).buffer == old(self).buffer && replaced is None,
            },
    {
        match made {
            Some(dc) => {
                let replaced = self.buffer.take();
                self.buffer = Some(BackBuffer { dc, width, height });
                replaced
            },
            None => None,
        }
    }

    /// The buffer that is copied to the window: only one that has the
    /// size of the rectangle.
    pub fn present(&self, rect: Rect) -> (buffer: Option<&BackBuffer<D>>)
        requires
            rect.extents_fit(),
        ensures
            match buffer {
                Some(buffer) => self.has_size(rect.spec_width(), rect.spec_height())
                    && self.buffer == Some(*buffer),
                None => !self.has_size(rect.spec_width(), rect.spec_height()),
            },
            buffer is Some <==> (self.buffer matches Some(buffer) && buffer.width == rect.right
                - rect.left && buffer.height == rect.bottom - rect.top),
    {
        let width: i32 = rect.width();
        let height: i32 = rect.height();
        match &self.buffer {
            Some(buffer) => {
                if buffer.width == width && buffer.height == height {
                    Some(buffer)
                } else {
                    None
                }
            },
            None => None,
        }
    }
}

} // verus!
