//! Sizes and bounds of the window and of the views inside it.

use vstd::prelude::*;

verus! {

/// The size of the window, in pixels.
#[derive(Clone, Copy, Debug, PartialEq, Eq, Structural)]
pub struct WindowSize {
    pub width: i32,
    pub height: i32,
}

/// Where a view lies in its window: the offset of its top left corner from
/// the top left corner of the window, its size, and the size of the window.
#[derive(Clone, Copy, Debug, PartialEq, Eq, Structural)]
pub struct WebViewBounds {
    pub x: i32,
    pub y: i32,
    pub width: i32,
    pub height: i32,
    pub window_size: WindowSize,
}

/// A rectangle as the rendering engine takes it: the vertical offset is
/// measured from the bottom edge of the window to the bottom edge of the view.
#[derive(Clone, Copy, Debug, PartialEq, Eq, Structural)]
pub struct NativeRect {
    pub x: i32,
    pub y: i32,
    pub width: i32,
    pub height: i32,
}

impl WebViewBounds {
    /// The vertical offset of the view measured from the bottom of the window.
    pub open spec fn flipped_y(self) -> int {
        self.window_size.height - (self.height + self.y)
    }

    /// Whether the rectangle for the engine can be written in 32 bits.
    pub open spec fn fits_native(self) -> bool {
        &&& i32::MIN <= self.height + self.y <= i32::MAX
        &&& i32::MIN <= self.flipped_y() <= i32::MAX
    }

    /// The rectangle for the engine, where it can be written in 32 bits.
    pub fn to_native(self) -> (rect: Option<NativeRect>)
        ensures
            rect is Some == self.fits_native(),
            rect is Some ==> rect->0 == (NativeRect {
                x: self.x,
                y: self.flipped_y() as i32,
                width: self.width,
                height: self.height,
            }),
    {
        match self.height.checked_add(self.y) {
            None => None,
            Some(bottom) => match self.window_size.height.checked_sub(bottom) {
                None => None,
                Some(y) => Some(NativeRect { x: self.x, y, width: self.width, height: self.height }),
            },
        }
    }

    /// The bounds of the view area in a window of the given size, when the
    /// panels to its left take `offset_x` pixels and the bars above it take
    /// `offset_y` pixels: the view fills what is left of the window.
    pub open spec fn spec_beside_panels(window: WindowSize, offset_x: i32, offset_y: i32) -> Self {
        WebViewBounds {
            x: offset_x,
            y: offset_y,
            width: (window.width - offset_x) as i32,
            height: (window.height - offset_y) as i32,
            window_size: window,
        }
    }

    /// The bounds of the view area beside the panels, where width and height
    /// can be written in 32 bits.
    pub fn beside_panels(window: WindowSize, offset_x: i32, offset_y: i32) -> (bounds: Option<Self>)
        ensures
            bounds is Some == (i32::MIN <= window.width - offset_x <= i32::MAX && i32::MIN
                <= window.height - offset_y <= i32::MAX),
            bounds is Some ==> bounds->0 == Self::spec_beside_panels(window, offset_x, offset_y),
    {
        match window.width.checked_sub(offset_x) {
            None => None,
            Some(width) => match window.height.checked_sub(offset_y) {
                None => None,
                Some(height) => Some(
                    WebViewBounds { x: offset_x, y: offset_y, width, height, window_size: window },
                ),
            },
        }
    }
}

} // verus!
