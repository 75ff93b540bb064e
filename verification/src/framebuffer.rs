//! The frame held in memory: its byte layout, the bytes of a colour in each
//! pixel format, the pixel-write path and the gathering of a window's rows.

use crate::geometry::{pixel_offset, ColorMode, DisplaySize};
use vstd::prelude::*;

verus! {

/// A colour of eight bits per channel.
#[derive(Debug, Clone, Copy, PartialEq, Eq, Structural)]
pub struct Rgb {
    pub r: u8,
    pub g: u8,
    pub b: u8,
}

/// A colour at a coordinate. The coordinate may lie outside the panel.
#[derive(Debug, Clone, Copy, PartialEq, Eq, Structural)]
pub struct Pixel {
    pub x: i32,
    pub y: i32,
    pub color: Rgb,
}

/// True where `(x, y)` is a coordinate of the panel.
pub open spec fn in_bounds(size: DisplaySize, x: int, y: int) -> bool {
    0 <= x < size.width && 0 <= y < size.height
}

/// True where `(x, y)` is a coordinate of the panel and the frame `fb`, in
/// the format `mode`, holds all bytes of that pixel.
pub open spec fn holds_pixel(
    fb: Seq<u8>,
    size: DisplaySize,
    mode: ColorMode,
    x: int,
    y: int,
) -> bool {
    in_bounds(size, x, y) && pixel_offset(size.width as int, mode.pixel_bytes() as int, x, y)
        + mode.pixel_bytes() <= fb.len()
}

/// The colour `c` as a 16-bit value of five bits red, six bits green and
/// five bits blue, red in the highest bits.
pub open spec fn rgb565(c: Rgb) -> int {
    (c.r / 8) * 2048 + (c.g / 4) * 32 + c.b / 8
}

/// The brightness of the colour `c`, from 0 to 255: red, green and blue
/// weighted 77, 150 and 29 parts of 256.
pub open spec fn luma(c: Rgb) -> int {
    (c.r * 77 + c.g * 150 + c.b * 29) / 256
}

/// The bytes of the colour `c` in the format `mode`, as many as the format
/// has bytes per pixel: red, green, blue for the formats of three bytes; the
/// 5-6-5 value, high byte first, for RGB565; the brightness for Gray8.
pub open spec fn encoded(c: Rgb, mode: ColorMode) -> Seq<u8> {
    match mode {
        ColorMode::Rgb888 => seq![c.r, c.g, c.b],
        ColorMode::Rgb666 => seq![c.r, c.g, c.b],
        ColorMode::Rgb565 => seq![(rgb565(c) / 256) as u8, (rgb565(c) % 256) as u8],
        ColorMode::Gray8 => seq![luma(c) as u8],
    }
}

/// The colour that the bytes of one pixel in the format `mode` stand for.
/// The formats of three bytes give the colour itself; RGB565 gives each
/// channel with its lost low bits zero; Gray8 gives the grey of that
/// brightness.
pub open spec fn decoded(bytes: Seq<u8>, mode: ColorMode) -> Rgb {
    match mode {
        ColorMode::Rgb888 => Rgb { r: bytes[0], g: bytes[1], b: bytes[2] },
        ColorMode::Rgb666 => Rgb { r: bytes[0], g: bytes[1], b: bytes[2] },
        ColorMode::Rgb565 => {
            let v = bytes[0] * 256 + bytes[1];
            Rgb {
                r: ((v / 2048) * 8) as u8,
                g: (((v / 32) % 64) * 4) as u8,
                b: ((v % 32) * 8) as u8,
            }
        },
        ColorMode::Gray8 => Rgb { r: bytes[0], g: bytes[0], b: bytes[0] },
    }
}

/// The frame `fb`, in the format `mode`, after the colour `c` was drawn at
/// `(x, y)`: the bytes of that pixel, from its offset on, are the colour's
/// bytes in that format, and every other byte is as it was. Where the frame
/// does not hold the pixel, it is `fb` itself.
pub open spec fn drawn(
    fb: Seq<u8>,
    size: DisplaySize,
    mode: ColorMode,
    x: int,
    y: int,
    c: Rgb,
) -> Seq<u8> {
    let at = pixel_offset(size.width as int, mode.pixel_bytes() as int, x, y);
    if holds_pixel(fb, size, mode, x, y) {
        Seq::new(
            fb.len(),
            |i: int|
                if at <= i < at + mode.pixel_bytes() {
                    encoded(c, mode)[i - at]
                } else {
                    fb[i]
                },
        )
    } else {
        fb
    }
}

/// The frame `fb` after the first `n` of `pixels` were drawn, in order.
pub open spec fn drawn_all(
    fb: Seq<u8>,
    size: DisplaySize,
    mode: ColorMode,
    pixels: Seq<Pixel>,
    n: nat,
) -> Seq<u8>
    decreases n,
{
    if n == 0 {
        fb
    } else {
        let p = pixels[n - 1];
        drawn(
            drawn_all(fb, size, mode, pixels, (n - 1) as nat),
            size,
            mode,
            p.x as int,
            p.y as int,
            p.color,
        )
    }
}

/// The bytes of the pixel `(x, y)` in the frame `fb`, where it holds that
/// pixel.
pub open spec fn stored(fb: Seq<u8>, size: DisplaySize, mode: ColorMode, x: int, y: int) -> Option<
    Seq<u8>,
> {
    let at = pixel_offset(size.width as int, mode.pixel_bytes() as int, x, y);
    if holds_pixel(fb, size, mode, x, y) {
        Some(fb.subrange(at, at + mode.pixel_bytes()))
    } else {
        None
    }
}

/// The colour that the frame `fb` shows at `(x, y)`, where it holds that
/// pixel.
pub open spec fn pixel_at(
    fb: Seq<u8>,
    size: DisplaySize,
    mode: ColorMode,
    x: int,
    y: int,
) -> Option<Rgb> {
    match stored(fb, size, mode, x, y) {
        Some(bytes) => Some(decoded(bytes, mode)),
        None => None,
    }
}

/// The bytes of row `y` of the frame `fb` from column `x_start` to column
/// `x_end`, both included. The frame is `width` pixels wide with `bpp` bytes
/// per pixel.
pub open spec fn window_row(
    fb: Seq<u8>,
    width: int,
    bpp: int,
    x_start: int,
    x_end: int,
    y: int,
) -> Seq<u8> {
    let from = pixel_offset(width, bpp, x_start, y);
    fb.subrange(from, from + (x_end - x_start + 1) * bpp)
}

/// The first `rows` rows of a window whose top row is `y_start`, each
/// restricted to the columns `x_start` to `x_end`, one after the other from
/// top to bottom.
pub open spec fn window_rows(
    fb: Seq<u8>,
    width: int,
    bpp: int,
    x_start: int,
    x_end: int,
    y_start: int,
    rows: nat,
) -> Seq<u8>
    decreases rows,
{
    if rows == 0 {
        Seq::empty()
    } else {
        window_rows(fb, width, bpp, x_start, x_end, y_start, (rows - 1) as nat) + window_row(
            fb,
            width,
            bpp,
            x_start,
            x_end,
            y_start + rows - 1,
        )
    }
}

/// True where a frame of `len` bytes holds every row of the window: its last
/// row, which lies furthest into the frame, ends inside it.
pub open spec fn window_fits(
    len: int,
    width: int,
    bpp: int,
    x_start: int,
    x_end: int,
    y_end: int,
) -> bool {
    pixel_offset(width, bpp, x_start, y_end) + (x_end - x_start + 1) * bpp <= len
}

/// The bytes of one frame, row-major from the top-left corner, in storage
/// of static lifetime or on the heap.
pub enum Framebuffer {
    Static(&'static mut [u8]),
    Heap(Box<[u8]>),
}

impl View for Framebuffer {
    type V = Seq<u8>;

    /// The bytes of the frame, whichever storage holds them.
    open spec fn view(&self) -> Seq<u8> {
        match self {
            Framebuffer::Static(bytes) => bytes@,
            Framebuffer::Heap(bytes) => bytes@,
        }
    }
}

impl Framebuffer {
    pub fn as_mut_slice(&mut self) -> (s: &mut [u8])
        ensures
            s@ == old(self)@,
            final(self)@ == final(s)@,
    {
        match self {
            Framebuffer::Static(bytes) => bytes,
            Framebuffer::Heap(bytes) => bytes,
        }
    }

    pub fn as_slice(&self) -> (s: &[u8])
        ensures
            s@ == self@,
    {
        match self {
            Framebuffer::Static(bytes) => bytes,
            Framebuffer::Heap(bytes) => bytes,
        }
    }

    pub fn len(&self) -> (n: usize)
        ensures
            n == self@.len(),
    {
        self.as_slice().len()
    }

    /// Stores the colour `c` at `(x, y)` of a panel of the given size, in
    /// the format `mode`. Only the bytes of that pixel change. A coordinate
    /// outside the panel, or a pixel that the frame does not hold, leaves the
    /// frame as it was.
    pub fn write_pixel(&mut self, size: DisplaySize, mode: ColorMode, x: i32, y: i32, c: Rgb)
        ensures
            final(self)@ == drawn(old(self)@, size, mode, x as int, y as int, c),
            final(self)@.len() == old(self)@.len(),
            !in_bounds(size, x as int, y as int) ==> final(self)@ == old(self)@,
            holds_pixel(old(self)@, size, mode, x as int, y as int) ==> stored(
                final(self)@,
                size,
                mode,
                x as int,
                y as int,
            ) == Some(encoded(c, mode)),
    {
        if x >= 0 && x < size.width as i32 && y >= 0 && y < size.height as i32 {
            let n: usize = mode.bytes_per_pixel();
            proof {
                lemma_offset_bound(size.width as int, n as int, x as int, y as int);
            }
            let at: u64 = (y as u64 * size.width as u64 + x as u64) * n as u64;
            let code = encode(c, mode);
            let ghost before = self@;
            let bytes = self.as_mut_slice();
            if at + n as u64 <= bytes.len() as u64 {
                let i: usize = at as usize;
                bytes[i] = code[0];
                if n >= 2 {
                    bytes[i + 1] = code[1];
                }
                if n >= 3 {
                    bytes[i + 2] = code[2];
                }
                proof {
                    let after = drawn(before, size, mode, x as int, y as int, c);
                    assert(bytes@ =~= after);
                    assert(after.subrange(at as int, at + n) =~= encoded(c, mode));
                }
            }
        }
    }

    /// Reads the colour at `(x, y)` of a panel of the given size from a
    /// frame in the format `mode`, where the frame holds that pixel.
    pub fn read_pixel(&self, size: DisplaySize, mode: ColorMode, x: i32, y: i32) -> (c: Option<Rgb>)
        ensures
            c == pixel_at(self@, size, mode, x as int, y as int),
    {
        if x >= 0 && x < size.width as i32 && y >= 0 && y < size.height as i32 {
            let n: usize = mode.bytes_per_pixel();
            proof {
                lemma_offset_bound(size.width as int, n as int, x as int, y as int);
            }
            let at: u64 = (y as u64 * size.width as u64 + x as u64) * n as u64;
            let bytes = self.as_slice();
            if at + n as u64 <= bytes.len() as u64 {
                let i: usize = at as usize;
                let first: u8 = bytes[i];
                let second: u8 = if n >= 2 {
                    bytes[i + 1]
                } else {
                    0
                };
                let third: u8 = if n >= 3 {
                    bytes[i + 2]
                } else {
                    0
                };
                let ghost held = bytes@.subrange(at as int, at + n);
                assert(held[0] == first);
                assert(n >= 2 ==> held[1] == second);
                assert(n >= 3 ==> held[2] == third);
                return Some(decode(first, second, third, mode));
            }
        }
        None
    }

    /// Gathers the rows `y_start` to `y_end` of the frame, each restricted to
    /// the columns `x_start` to `x_end`, into one buffer, top row first. The
    /// frame is `width` pixels wide in the format `color`.
    ///
    /// Returns `None` where a bound is inverted or a row of the window does
    /// not lie inside the frame.
    pub fn pack_window(
        &self,
        width: u16,
        color: ColorMode,
        x_start: u16,
        x_end: u16,
        y_start: u16,
        y_end: u16,
    ) -> (packed: Option<Vec<u8>>)
        ensures
            packed is Some <==> x_start <= x_end && y_start <= y_end && window_fits(
                self@.len() as int,
                width as int,
                color.pixel_bytes() as int,
                x_start as int,
                x_end as int,
                y_end as int,
            ),
            packed is Some ==> packed->0@ == window_rows(
                self@,
                width as int,
                color.pixel_bytes() as int,
                x_start as int,
                x_end as int,
                y_start as int,
                (y_end - y_start + 1) as nat,
            ),
            packed is Some ==> packed->0@.len() == (y_end - y_start + 1) * ((x_end - x_start + 1)
                * color.pixel_bytes()),
    {
        if x_end < x_start || y_end < y_start {
            return None;
        }
        let bpp: u64 = color.bytes_per_pixel() as u64;
        let columns: u64 = x_end as u64 - x_start as u64 + 1;
        proof {
            assert(0 <= columns * bpp <= 3 * 0x10000) by (nonlinear_arith)
                requires
                    0 <= columns <= 0x10000,
                    0 <= bpp <= 3,
            ;
            lemma_offset_bound(width as int, bpp as int, x_start as int, y_end as int);
        }
        let row_len: u64 = columns * bpp;
        let last: u64 = (y_end as u64 * width as u64 + x_start as u64) * bpp;
        let bytes = self.as_slice();
        let len: usize = bytes.len();
        if last + row_len > len as u64 {
            return None;
        }
        let ghost fb = bytes@;
        let ghost w = width as int;
        let ghost b = bpp as int;
        let ghost xs = x_start as int;
        let ghost xe = x_end as int;
        let ghost ys = y_start as int;
        let mut out: Vec<u8> = Vec::new();
        let mut y: u32 = y_start as u32;
        while y <= y_end as u32
            invariant
                fb == bytes@,
                fb.len() == len,
                w == width as int,
                b == bpp as int,
                1 <= b <= 3,
                xs == x_start as int,
                xe == x_end as int,
                ys == y_start as int,
                xs <= xe,
                row_len == (xe - xs + 1) * b,
                row_len <= 3 * 0x10000,
                ys <= y <= y_end + 1,
                window_fits(fb.len() as int, w, b, xs, xe, y_end as int),
                out@ == window_rows(fb, w, b, xs, xe, ys, (y - ys) as nat),
                out@.len() == (y - ys) * row_len,
            decreases y_end + 1 - y,
        {
            proof {
                lemma_offset_bound(w, b, xs, y as int);
                lemma_offset_monotone(w, b, xs, y as int, y_end as int);
            }
            let at: u64 = (y as u64 * width as u64 + x_start as u64) * bpp;
            assert(at == pixel_offset(w, b, xs, y as int));
            assert(at + row_len <= fb.len());
            let from: usize = at as usize;
            let n: usize = row_len as usize;
            let ghost before = out@;
            let mut k: usize = 0;
            while k < n
                invariant
                    fb == bytes@,
                    fb.len() == len,
                    k <= n,
                    from + n <= fb.len(),
                    out@ == before + fb.subrange(from as int, from + k),
                decreases n - k,
            {
                out.push(bytes[from + k]);
                k = k + 1;
                assert(out@ =~= before + fb.subrange(from as int, from + k));
            }
            y = y + 1;
            proof {
                assert(fb.subrange(from as int, from + n) == window_row(fb, w, b, xs, xe, y - 1));
                assert(out@ == before + window_row(fb, w, b, xs, xe, y - 1));
                assert((y - ys) * row_len == (y - 1 - ys) * row_len + row_len)
                    by (nonlinear_arith);
            }
        }
        Some(out)
    }
}

/// A pixel offset of a frame at most 65535 pixels wide and high, with at most
/// three bytes per pixel, is small: it and a row's length fit 64 bits with
/// room to spare.
pub proof fn lemma_offset_bound(width: int, bpp: int, x: int, y: int)
    requires
        0 <= width <= 0xffff,
        0 <= bpp <= 3,
        0 <= x <= 0xffff,
        0 <= y <= 0xffff,
    ensures
        0 <= y * width <= 0xffff * 0xffff,
        0 <= y * width + x <= 0xffff * 0xffff + 0xffff,
        0 <= pixel_offset(width, bpp, x, y) <= 3 * (0xffff * 0xffff + 0xffff),
{
    assert(0 <= y * width <= 0xffff * 0xffff) by (nonlinear_arith)
        requires
            0 <= width <= 0xffff,
            0 <= y <= 0xffff,
    ;
    let p = y * width + x;
    assert(0 <= p * bpp <= 3 * (0xffff * 0xffff + 0xffff)) by (nonlinear_arith)
        requires
            0 <= p <= 0xffff * 0xffff + 0xffff,
            0 <= bpp <= 3,
    ;
}

/// Pixel offsets grow with the row: a lower row of the same column lies at or
/// behind a higher one.
pub proof fn lemma_offset_monotone(width: int, bpp: int, x: int, y: int, y_below: int)
    requires
        0 <= width,
        0 <= bpp,
        y <= y_below,
    ensures
        pixel_offset(width, bpp, x, y) <= pixel_offset(width, bpp, x, y_below),
{
    assert((y * width + x) * bpp <= (y_below * width + x) * bpp) by (nonlinear_arith)
        requires
            0 <= width,
            0 <= bpp,
            y <= y_below,
    ;
}

impl core::ops::Deref for Framebuffer {
    type Target = [u8];

    fn deref(&self) -> (s: &[u8])
        ensures
            s@ == self@,
    {
        match self {
            Framebuffer::Static(bytes) => bytes,
            Framebuffer::Heap(bytes) => bytes,
        }
    }
}

impl core::ops::DerefMut for Framebuffer {
    fn deref_mut(&mut self) -> (s: &mut [u8])
        ensures
            s@ == old(self)@,
            final(self)@ == final(s)@,
    {
        match self {
            Framebuffer::Static(bytes) => bytes,
            Framebuffer::Heap(bytes) => bytes,
        }
    }
}

/// Computes the bytes of the colour `c` in the format `mode`. The format's
/// bytes stand first; the bytes behind them are zero.
pub fn encode(c: Rgb, mode: ColorMode) -> (code: [u8; 3])
    ensures
        code@.take(mode.pixel_bytes() as int) == encoded(c, mode),
{
    let code: [u8; 3] = match mode {
        ColorMode::Rgb888 => [c.r, c.g, c.b],
        ColorMode::Rgb666 => [c.r, c.g, c.b],
        ColorMode::Rgb565 => {
            let v: u16 = (c.r as u16 / 8) * 2048 + (c.g as u16 / 4) * 32 + c.b as u16 / 8;
            [(v / 256) as u8, (v % 256) as u8, 0]
        },
        ColorMode::Gray8 => {
            let v: u32 = (c.r as u32 * 77 + c.g as u32 * 150 + c.b as u32 * 29) / 256;
            [v as u8, 0, 0]
        },
    };
    assert(code@.take(mode.pixel_bytes() as int) =~= encoded(c, mode));
    code
}

/// Computes the colour that the bytes of one pixel in the format `mode`
/// stand for. Of the three bytes given, only the format's count.
pub fn decode(first: u8, second: u8, third: u8, mode: ColorMode) -> (c: Rgb)
    ensures
        forall|bytes: Seq<u8>|
            bytes.len() == mode.pixel_bytes() && bytes[0] == first && (bytes.len() >= 2
                ==> bytes[1] == second) && (bytes.len() >= 3 ==> bytes[2] == third)
                ==> c == #[trigger] decoded(bytes, mode),
{
    match mode {
        ColorMode::Rgb888 => Rgb { r: first, g: second, b: third },
        ColorMode::Rgb666 => Rgb { r: first, g: second, b: third },
        ColorMode::Rgb565 => {
            let v: u16 = first as u16 * 256 + second as u16;
            Rgb {
                r: ((v / 2048) * 8) as u8,
                g: (((v / 32) % 64) * 4) as u8,
                b: ((v % 32) * 8) as u8,
            }
        },
        ColorMode::Gray8 => Rgb { r: first, g: first, b: first },
    }
}

/// A pixel that was written is read back: in a frame that holds the pixel
/// `(x, y)`, drawing the colour `c` there leaves the colour's bytes in the
/// frame's format at that pixel, and reading the pixel gives the colour that
/// those bytes stand for. In the formats of three bytes that is `c` itself.
pub proof fn lemma_draw_then_read(
    fb: Seq<u8>,
    size: DisplaySize,
    mode: ColorMode,
    x: int,
    y: int,
    c: Rgb,
)
    requires
        holds_pixel(fb, size, mode, x, y),
    ensures
        drawn(fb, size, mode, x, y, c).len() == fb.len(),
        stored(drawn(fb, size, mode, x, y, c), size, mode, x, y) == Some(encoded(c, mode)),
        pixel_at(drawn(fb, size, mode, x, y, c), size, mode, x, y) == Some(
            decoded(encoded(c, mode), mode),
        ),
        mode.pixel_bytes() == 3 ==> pixel_at(drawn(fb, size, mode, x, y, c), size, mode, x, y)
            == Some(c),
{
    let at = pixel_offset(size.width as int, mode.pixel_bytes() as int, x, y);
    lemma_offset_sign(size.width as int, mode.pixel_bytes() as int, x, y);
    let after = drawn(fb, size, mode, x, y, c);
    assert(after.subrange(at, at + mode.pixel_bytes()) =~= encoded(c, mode));
}

/// A frame as large as the panel in its format holds every pixel of the
/// panel, so every pixel written there is read back.
pub proof fn lemma_full_frame_round_trip(
    fb: Seq<u8>,
    size: DisplaySize,
    mode: ColorMode,
    x: int,
    y: int,
    c: Rgb,
)
    requires
        in_bounds(size, x, y),
        fb.len() >= crate::geometry::frame_bytes(size, mode),
    ensures
        holds_pixel(fb, size, mode, x, y),
        stored(drawn(fb, size, mode, x, y, c), size, mode, x, y) == Some(encoded(c, mode)),
        mode.pixel_bytes() == 3 ==> pixel_at(drawn(fb, size, mode, x, y, c), size, mode, x, y)
            == Some(c),
{
    crate::geometry::lemma_pixel_inside_frame(size, mode, x, y);
    lemma_draw_then_read(fb, size, mode, x, y, c);
}

/// Drawing outside the panel changes nothing.
pub proof fn lemma_draw_outside(
    fb: Seq<u8>,
    size: DisplaySize,
    mode: ColorMode,
    x: int,
    y: int,
    c: Rgb,
)
    requires
        !in_bounds(size, x, y),
    ensures
        drawn(fb, size, mode, x, y, c) == fb,
{
}

/// Drawing changes the bytes of one pixel and no other byte, and it never
/// reaches outside the frame.
pub proof fn lemma_draw_changes_one_pixel(
    fb: Seq<u8>,
    size: DisplaySize,
    mode: ColorMode,
    x: int,
    y: int,
    c: Rgb,
    i: int,
)
    requires
        0 <= i < fb.len(),
    ensures
        drawn(fb, size, mode, x, y, c).len() == fb.len(),
        drawn(fb, size, mode, x, y, c)[i] != fb[i] ==> in_bounds(size, x, y) && pixel_offset(
            size.width as int,
            mode.pixel_bytes() as int,
            x,
            y,
        ) <= i < pixel_offset(size.width as int, mode.pixel_bytes() as int, x, y)
            + mode.pixel_bytes(),
{
}

/// Drawing one pixel leaves every other pixel of the panel as it was.
pub proof fn lemma_draw_keeps_others(
    fb: Seq<u8>,
    size: DisplaySize,
    mode: ColorMode,
    x: int,
    y: int,
    c: Rgb,
    other_x: int,
    other_y: int,
)
    requires
        in_bounds(size, other_x, other_y),
        (other_x, other_y) != (x, y),
    ensures
        stored(drawn(fb, size, mode, x, y, c), size, mode, other_x, other_y) == stored(
            fb,
            size,
            mode,
            other_x,
            other_y,
        ),
        pixel_at(drawn(fb, size, mode, x, y, c), size, mode, other_x, other_y) == pixel_at(
            fb,
            size,
            mode,
            other_x,
            other_y,
        ),
{
    if holds_pixel(fb, size, mode, x, y) {
        let w = size.width as int;
        let n = mode.pixel_bytes() as int;
        lemma_offset_sign(w, n, x, y);
        lemma_offset_sign(w, n, other_x, other_y);
        let p = y * w + x;
        let q = other_y * w + other_x;
        assert(p != q) by (nonlinear_arith)
            requires
                0 <= x < w,
                0 <= other_x < w,
                0 <= y,
                0 <= other_y,
                (other_x, other_y) != (x, y),
                p == y * w + x,
                q == other_y * w + other_x,
        ;
        assert(p * n + n <= q * n || q * n + n <= p * n) by (nonlinear_arith)
            requires
                p != q,
                1 <= n,
        ;
        if holds_pixel(fb, size, mode, other_x, other_y) {
            let after = drawn(fb, size, mode, x, y, c);
            assert(after.subrange(q * n, q * n + n) =~= fb.subrange(q * n, q * n + n));
        }
    }
}

/// Pixel offsets of coordinates that are not negative are not negative.
pub proof fn lemma_offset_sign(width: int, bpp: int, x: int, y: int)
    requires
        0 <= width,
        0 <= bpp,
        0 <= x,
        0 <= y,
    ensures
        0 <= pixel_offset(width, bpp, x, y),
{
    assert(0 <= (y * width + x) * bpp) by (nonlinear_arith)
        requires
            0 <= width,
            0 <= bpp,
            0 <= x,
            0 <= y,
    ;
}

/// The gathered rows of a window that the frame holds are as long as the
/// window's rows times the length of one row.
pub proof fn lemma_window_rows_len(
    fb: Seq<u8>,
    width: int,
    bpp: int,
    x_start: int,
    x_end: int,
    y_start: int,
    rows: nat,
)
    requires
        0 <= width,
        1 <= bpp,
        0 <= x_start <= x_end,
        0 <= y_start,
        rows == 0 || window_fits(fb.len() as int, width, bpp, x_start, x_end, y_start + rows - 1),
    ensures
        window_rows(fb, width, bpp, x_start, x_end, y_start, rows).len() == rows * ((x_end
            - x_start + 1) * bpp),
    decreases rows,
{
    let row_len = (x_end - x_start + 1) * bpp;
    if rows > 0 {
        if rows > 1 {
            lemma_offset_monotone(width, bpp, x_start, y_start + rows - 2, y_start + rows - 1);
        }
        lemma_window_rows_len(fb, width, bpp, x_start, x_end, y_start, (rows - 1) as nat);
        lemma_offset_sign(width, bpp, x_start, y_start + rows - 1);
        assert(0 <= row_len) by (nonlinear_arith)
            requires
                row_len == (x_end - x_start + 1) * bpp,
                x_start <= x_end,
                1 <= bpp,
        ;
        assert(rows * row_len == (rows - 1) * row_len + row_len) by (nonlinear_arith);
    } else {
        assert(rows * row_len == 0) by (nonlinear_arith)
            requires
                rows == 0,
        ;
    }
}

/// Where each byte of a window's gathered rows comes from: byte `j` of the
/// window's row `r` is the byte of the frame that lies `j` bytes behind the
/// first pixel of that row in the window.
pub proof fn lemma_window_byte(
    fb: Seq<u8>,
    width: int,
    bpp: int,
    x_start: int,
    x_end: int,
    y_start: int,
    rows: nat,
    r: int,
    j: int,
)
    requires
        0 <= width,
        1 <= bpp,
        0 <= x_start <= x_end,
        0 <= y_start,
        window_fits(fb.len() as int, width, bpp, x_start, x_end, y_start + rows - 1),
        0 <= r < rows,
        0 <= j < (x_end - x_start + 1) * bpp,
    ensures
        0 <= r * ((x_end - x_start + 1) * bpp) + j < window_rows(
            fb,
            width,
            bpp,
            x_start,
            x_end,
            y_start,
            rows,
        ).len(),
        0 <= pixel_offset(width, bpp, x_start, y_start + r) + j < fb.len(),
        window_rows(fb, width, bpp, x_start, x_end, y_start, rows)[r * ((x_end - x_start + 1)
            * bpp) + j] == fb[pixel_offset(width, bpp, x_start, y_start + r) + j],
    decreases rows,
{
    let row_len = (x_end - x_start + 1) * bpp;
    let above = window_rows(fb, width, bpp, x_start, x_end, y_start, (rows - 1) as nat);
    let last = window_row(fb, width, bpp, x_start, x_end, y_start + rows - 1);
    lemma_window_rows_len(fb, width, bpp, x_start, x_end, y_start, rows);
    lemma_offset_sign(width, bpp, x_start, y_start + rows - 1);
    if rows > 1 {
        lemma_offset_monotone(width, bpp, x_start, y_start + rows - 2, y_start + rows - 1);
    }
    lemma_window_rows_len(fb, width, bpp, x_start, x_end, y_start, (rows - 1) as nat);
    assert(rows * row_len == (rows - 1) * row_len + row_len) by (nonlinear_arith);
    if r == rows - 1 {
        assert((above + last)[above.len() + j] == last[j]);
    } else {
        lemma_window_byte(fb, width, bpp, x_start, x_end, y_start, (rows - 1) as nat, r, j);
        assert(r * row_len + j < (rows - 1) * row_len) by (nonlinear_arith)
            requires
                0 <= r <= rows - 2,
                0 <= j < row_len,
        ;
        assert((above + last)[r * row_len + j] == above[r * row_len + j]);
    }
}

/// A frame as large as the panel holds every window that lies inside the
/// panel.
pub proof fn lemma_window_inside_panel(
    size: DisplaySize,
    color: ColorMode,
    len: int,
    x_start: int,
    x_end: int,
    y_end: int,
)
    requires
        0 <= x_start <= x_end < size.width,
        0 <= y_end < size.height,
        len >= crate::geometry::frame_bytes(size, color),
    ensures
        window_fits(len, size.width as int, color.pixel_bytes() as int, x_start, x_end, y_end),
{
    let w = size.width as int;
    let h = size.height as int;
    let b = color.pixel_bytes() as int;
    assert((y_end * w + x_start) * b + (x_end - x_start + 1) * b <= (w * h) * b)
        by (nonlinear_arith)
        requires
            0 <= x_start <= x_end < w,
            0 <= y_end < h,
            1 <= b,
    ;
}

} // verus!
