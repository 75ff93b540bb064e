//! Display geometry and pixel formats.

use vstd::prelude::*;

verus! {

/// The dimensions of a panel, in pixels.
#[derive(Debug, Clone, Copy)]
pub struct DisplaySize {
    /// Display width in pixels.
    pub width: u16,
    /// Display height in pixels.
    pub height: u16,
}

impl DisplaySize {
    pub fn new(width: u16, height: u16) -> (size: Self)
        ensures
            size.width == width,
            size.height == height,
    {
        DisplaySize { width, height }
    }

    /// The number of pixels of the panel.
    pub open spec fn pixels(&self) -> nat {
        (self.width * self.height) as nat
    }
}

/// Pixel formats that the controller accepts.
#[derive(Debug, Clone, Copy)]
pub enum ColorMode {
    /// 16-bit RGB565 format
    Rgb565,
    /// 24-bit RGB888 format
    Rgb888,
    /// 18-bit RGB666 format
    Rgb666,
    /// 8-bit 256 Gray
    Gray8,
}

impl ColorMode {
    /// The width of one pixel in bytes, as a mathematical integer.
    pub open spec fn pixel_bytes(&self) -> nat {
        match self {
            ColorMode::Rgb565 => 2,
            ColorMode::Rgb888 => 3,
            ColorMode::Rgb666 => 3,
            ColorMode::Gray8 => 1,
        }
    }

    /// The value of the controller's pixel-format register for this mode.
    pub open spec fn format_code(&self) -> u8 {
        match self {
            ColorMode::Rgb565 => 0x55,
            ColorMode::Rgb888 => 0x77,
            ColorMode::Rgb666 => 0x66,
            ColorMode::Gray8 => 0x11,
        }
    }

    /// Returns the number of bytes per pixel for the color format.
    pub fn bytes_per_pixel(&self) -> (n: usize)
        ensures
            n == self.pixel_bytes(),
            1 <= n <= 3,
    {
        match self {
            ColorMode::Rgb565 => 2,
            ColorMode::Rgb888 => 3,
            ColorMode::Rgb666 => 3,
            ColorMode::Gray8 => 1,
        }
    }

    /// Returns the byte written to the pixel-format register for this mode.
    pub fn pixel_format(&self) -> (code: u8)
        ensures
            code == self.format_code(),
    {
        match self {
            ColorMode::Rgb565 => 0x55,
            ColorMode::Rgb888 => 0x77,
            ColorMode::Rgb666 => 0x66,
            ColorMode::Gray8 => 0x11,
        }
    }
}

/// The size in bytes of one frame of `display` in the format `color`.
pub open spec fn frame_bytes(display: DisplaySize, color: ColorMode) -> nat {
    display.pixels() * color.pixel_bytes()
}

/// The byte offset of the pixel `(x, y)` in a row-major frame that is `width`
/// pixels wide and holds `bpp` bytes per pixel.
pub open spec fn pixel_offset(width: int, bpp: int, x: int, y: int) -> int {
    (y * width + x) * bpp
}

/// Computes the framebuffer size (in bytes) for a given display and color mode.
///
/// The size has to fit the machine's address range.
pub fn framebuffer_size(display: DisplaySize, color: ColorMode) -> (size: usize)
    requires
        display.width * display.height * color.pixel_bytes() <= usize::MAX,
    ensures
        size == display.width * display.height * color.pixel_bytes(),
        size == frame_bytes(display, color),
{
    let bpp: usize = color.bytes_per_pixel();
    let w: usize = display.width as usize;
    let h: usize = display.height as usize;
    proof {
        assert(w * h <= w * h * bpp) by (nonlinear_arith)
            requires
                bpp >= 1,
                w >= 0,
                h >= 0,
        ;
    }
    w * h * bpp
}

/// Tells whether `len` is the size in bytes of one frame of `display` in the
/// format `color`.
pub fn frame_len_ok(display: DisplaySize, color: ColorMode, len: usize) -> (ok: bool)
    ensures
        ok == (len == frame_bytes(display, color)),
{
    let w: u64 = display.width as u64;
    let h: u64 = display.height as u64;
    let bpp: u64 = color.bytes_per_pixel() as u64;
    proof {
        assert(w * h <= 0xffff * 0xffff) by (nonlinear_arith)
            requires
                0 <= w <= 0xffff,
                0 <= h <= 0xffff,
        ;
        assert(w * h * bpp <= 0xffff * 0xffff * 3) by (nonlinear_arith)
            requires
                0 <= w * h <= 0xffff * 0xffff,
                0 <= bpp <= 3,
        ;
    }
    len as u64 == w * h * bpp
}

/// Every pixel of a panel lies inside a frame of the panel's size: the bytes
/// of `(x, y)` end at or before the frame's end.
pub proof fn lemma_pixel_inside_frame(display: DisplaySize, color: ColorMode, x: int, y: int)
    requires
        0 <= x < display.width,
        0 <= y < display.height,
    ensures
        0 <= pixel_offset(display.width as int, color.pixel_bytes() as int, x, y),
        pixel_offset(display.width as int, color.pixel_bytes() as int, x, y)
            + color.pixel_bytes() <= frame_bytes(display, color),
{
    let w = display.width as int;
    let h = display.height as int;
    let b = color.pixel_bytes() as int;
    assert(0 <= (y * w + x) * b && (y * w + x) * b + b <= (w * h) * b) by (nonlinear_arith)
        requires
            0 <= x < w,
            0 <= y < h,
            1 <= b,
    ;
}

} // verus!
