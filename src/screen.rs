//! The window's size and the unit derived from it.
use vstd::prelude::*;

verus! {

/// `a / b` for a positive `b`, rounded toward zero as Rust's integer
/// division does (`/` on `int` rounds down).
pub open spec fn div_toward_zero(a: int, b: int) -> int {
    if a >= 0 {
        a / b
    } else {
        -((-a) / b)
    }
}

/// The window's width and height in pixels, and their quotient.
pub struct Screen {
    pub width: i32,
    pub height: i32,
    pub base_unit: i32,
}

impl Screen {
    pub fn init(width: i32, height: i32) -> (r: Self)
        requires
            height > 0,
        ensures
            r.width == width,
            r.height == height,
            r.base_unit == div_toward_zero(width as int, height as int),
    {
        Self { width, height, base_unit: width / height }
    }

    pub fn resize(&mut self, width: i32, height: i32)
        requires
            height > 0,
        ensures
            final(self).width == width,
            final(self).height == height,
            final(self).base_unit == div_toward_zero(width as int, height as int),
    {
        self.width = width;
        self.height = height;
        self.base_unit = width / height;
    }
}

} // verus!
