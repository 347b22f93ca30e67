//! Console renderer: owns the pixel surface and a cursor, and turns a stream
//! of characters into pixel writes, handling line wrap, wrap-to-blank-screen,
//! and backspace-erase.

use vstd::prelude::*;
use vstd::arithmetic::div_mod::{
    lemma_fundamental_div_mod, lemma_fundamental_div_mod_converse, lemma_mod_bound,
};

use crate::font::{get_char_raster, glyph_of, glyph_wf, Glyph};
use crate::{BACKSPACE, BORDER_PADDING, GLYPH_HEIGHT, GLYPH_WIDTH, LETTER_SPACING, LINE_SPACING};

verus! {

/// Pixel layout of the surface: the order in which a pixel's channel bytes
/// are stored, or a single grayscale channel.
#[derive(Clone, Copy, PartialEq, Eq, Structural, Debug)]
pub enum PixelFormat {
    Rgb,
    Bgr,
    U8,
}

/// Geometry of the raw display surface.
#[derive(Clone, Copy, PartialEq, Eq, Structural, Debug)]
pub struct FrameBufferInfo {
    /// Total size of the surface in bytes.
    pub byte_len: usize,
    /// Width in pixels.
    pub width: usize,
    /// Height in pixels.
    pub height: usize,
    /// Pixel layout.
    pub pixel_format: PixelFormat,
    /// Bytes per pixel.
    pub bytes_per_pixel: usize,
    /// Pixels between the start of a line and the start of the next; may
    /// exceed `width` when rows carry padding.
    pub stride: usize,
}

/// A geometry the renderer can draw text on: every pixel of a glyph cell
/// placed with the border padding lies inside the surface.
pub open spec fn geo_wf(info: FrameBufferInfo) -> bool {
    &&& info.stride >= info.width
    &&& 1 <= info.bytes_per_pixel <= 4
    &&& info.byte_len == info.stride * info.height * info.bytes_per_pixel
    &&& info.width >= GLYPH_WIDTH + 2 * BORDER_PADDING
    &&& info.height >= GLYPH_HEIGHT + 2 * BORDER_PADDING
}

/// The bytes one pixel write stores for an intensity, by pixel layout.
pub open spec fn color_bytes(fmt: PixelFormat, intensity: u8) -> Seq<u8> {
    match fmt {
        PixelFormat::Rgb => seq![intensity, intensity, (intensity / 2) as u8, 0u8],
        PixelFormat::Bgr => seq![(intensity / 2) as u8, intensity, intensity, 0u8],
        PixelFormat::U8 => seq![
            if intensity > 200 {
                0xfu8
            } else {
                0u8
            },
            0u8,
            0u8,
            0u8,
        ],
    }
}

/// Mathematical state of the console: surface bytes and cursor position.
pub struct Screen {
    pub buf: Seq<u8>,
    pub x: int,
    pub y: int,
}

/// Byte offset of the first byte of pixel (x, y).
pub open spec fn pix_off(info: FrameBufferInfo, x: int, y: int) -> int {
    (y * info.stride + x) * info.bytes_per_pixel
}

/// Whether byte `j` belongs to a glyph-cell pixel at origin (x, y) that a
/// row-major blit has already written, given `rows` full rows and `cols`
/// pixels of row `rows` done.
pub open spec fn blit_cond(
    info: FrameBufferInfo,
    x: int,
    y: int,
    grid: Seq<Seq<u8>>,
    rows: int,
    cols: int,
    j: int,
) -> bool {
    let bpp = info.bytes_per_pixel as int;
    let p = j / bpp;
    let py = p / (info.stride as int);
    let px = p % (info.stride as int);
    &&& y <= py < y + grid.len()
    &&& x <= px < x + GLYPH_WIDTH
    &&& (py - y < rows || (py - y == rows && px - x < cols))
}

/// Byte `j` of the surface after a partial row-major blit of `grid` at (x, y).
pub open spec fn blit_byte(
    info: FrameBufferInfo,
    buf: Seq<u8>,
    x: int,
    y: int,
    grid: Seq<Seq<u8>>,
    rows: int,
    cols: int,
    j: int,
) -> u8 {
    if blit_cond(info, x, y, grid, rows, cols, j) {
        let bpp = info.bytes_per_pixel as int;
        let p = j / bpp;
        let k = j % bpp;
        let py = p / (info.stride as int);
        let px = p % (info.stride as int);
        color_bytes(info.pixel_format, grid[py - y][px - x])[k]
    } else {
        buf[j]
    }
}

/// The surface after a partial row-major blit of `grid` at (x, y).
pub open spec fn blit_part(
    info: FrameBufferInfo,
    buf: Seq<u8>,
    x: int,
    y: int,
    grid: Seq<Seq<u8>>,
    rows: int,
    cols: int,
) -> Seq<u8> {
    Seq::new(buf.len(), |j: int| blit_byte(info, buf, x, y, grid, rows, cols, j))
}

/// The surface after blitting the whole of `grid` at pixel origin (x, y):
/// each glyph pixel's bytes become the colorization of its intensity, every
/// other byte keeps its value.
pub open spec fn blit(
    info: FrameBufferInfo,
    buf: Seq<u8>,
    x: int,
    y: int,
    grid: Seq<Seq<u8>>,
) -> Seq<u8> {
    blit_part(info, buf, x, y, grid, grid.len() as int, 0)
}

/// A surface of `len` bytes, all zero.
pub open spec fn zero_bytes(len: nat) -> Seq<u8> {
    Seq::new(len, |i: int| 0u8)
}

/// Newline: advance y by one line pitch, then carriage return.
pub open spec fn step_newline(s: Screen) -> Screen {
    Screen { buf: s.buf, x: BORDER_PADDING as int, y: s.y + GLYPH_HEIGHT + LINE_SPACING }
}

/// Carriage return: reset x to the left padding.
pub open spec fn step_carriage_return(s: Screen) -> Screen {
    Screen { buf: s.buf, x: BORDER_PADDING as int, y: s.y }
}

/// Printing a character: wrap to a new line if the glyph would reach the
/// right edge, wrap to a cleared screen if it would reach the bottom edge,
/// then blit its bitmap at the cursor and advance x one cell.
pub open spec fn step_print(info: FrameBufferInfo, s: Screen, c: char) -> Screen {
    let s1 = if s.x + GLYPH_WIDTH >= info.width {
        step_newline(s)
    } else {
        s
    };
    let s2 = if s1.y + GLYPH_HEIGHT + BORDER_PADDING >= info.height {
        Screen { buf: zero_bytes(s1.buf.len()), x: BORDER_PADDING as int, y: BORDER_PADDING as int }
    } else {
        s1
    };
    Screen {
        buf: blit(info, s2.buf, s2.x, s2.y, glyph_of(c)),
        x: s2.x + GLYPH_WIDTH + LETTER_SPACING,
        y: s2.y,
    }
}

/// Backspace: erase one glyph cell leftward. At the left padding boundary the
/// erase happens at the post-step x first; then, unless this is the first
/// display line, the cursor moves up one line pitch; x lands on the rightmost
/// glyph cell of that line, which is blanked too.
pub open spec fn step_backspace(info: FrameBufferInfo, s: Screen) -> Screen {
    let bx = s.x - GLYPH_WIDTH;
    if bx <= BORDER_PADDING {
        let b1 = blit(info, s.buf, bx, s.y, glyph_of(' '));
        let y1 = if s.y > GLYPH_HEIGHT + LINE_SPACING + BORDER_PADDING {
            s.y - (GLYPH_HEIGHT + LINE_SPACING)
        } else {
            s.y
        };
        let rx = info.width - GLYPH_WIDTH - BORDER_PADDING;
        Screen { buf: blit(info, b1, rx, y1, glyph_of(' ')), x: rx + LETTER_SPACING, y: y1 }
    } else {
        Screen { buf: blit(info, s.buf, bx, s.y, glyph_of(' ')), x: bx + LETTER_SPACING, y: s.y }
    }
}

/// The per-character cursor-advance protocol of the renderer.
pub open spec fn step_char(info: FrameBufferInfo, s: Screen, c: char) -> Screen {
    if c == BACKSPACE {
        step_backspace(info, s)
    } else if c == '\n' {
        step_newline(s)
    } else if c == '\r' {
        step_carriage_return(s)
    } else {
        step_print(info, s, c)
    }
}

/// The renderer's state after writing a whole character sequence.
pub open spec fn run_chars(info: FrameBufferInfo, s: Screen, cs: Seq<char>) -> Screen
    decreases cs.len(),
{
    if cs.len() == 0 {
        s
    } else {
        run_chars(info, step_char(info, s, cs[0]), cs.skip(1))
    }
}

/// When one character can be written without arithmetic over- or underflow:
/// a backspace needs a cursor at least one glyph cell from the true left
/// edge and vertically inside the surface; printing needs headroom for the
/// wrap bookkeeping.
pub open spec fn char_ok(info: FrameBufferInfo, s: Screen, c: char) -> bool {
    if c == BACKSPACE {
        &&& s.x >= GLYPH_WIDTH
        &&& s.x <= info.width
        &&& s.y + GLYPH_HEIGHT <= info.height
    } else if c == '\n' {
        s.y + GLYPH_HEIGHT + LINE_SPACING <= usize::MAX
    } else if c == '\r' {
        true
    } else {
        &&& s.x + GLYPH_WIDTH <= usize::MAX
        &&& s.y + 2 * GLYPH_HEIGHT + LINE_SPACING + BORDER_PADDING <= usize::MAX
    }
}

/// When a whole sequence can be written, character by character.
pub open spec fn chars_ok(info: FrameBufferInfo, s: Screen, cs: Seq<char>) -> bool
    decreases cs.len(),
{
    cs.len() == 0 || (char_ok(info, s, cs[0]) && chars_ok(
        info,
        step_char(info, s, cs[0]),
        cs.skip(1),
    ))
}

/// Allows logging text to a pixel-based framebuffer.
pub struct FrameBufferWriter {
    framebuffer: Vec<u8>,
    has_surface: bool,
    info: FrameBufferInfo,
    x_pos: usize,
    y_pos: usize,
}

impl FrameBufferWriter {
    /// Whether a surface has been installed.
    pub closed spec fn installed(&self) -> bool {
        self.has_surface
    }

    /// The installed geometry.
    pub closed spec fn spec_info(&self) -> FrameBufferInfo {
        self.info
    }

    /// The mathematical state: surface bytes and cursor.
    pub closed spec fn screen(&self) -> Screen {
        Screen { buf: self.framebuffer@, x: self.x_pos as int, y: self.y_pos as int }
    }

    /// Well-formedness: once installed, the geometry supports text and the
    /// byte buffer has exactly the announced length.
    pub closed spec fn wf(&self) -> bool {
        self.installed() ==> {
            &&& geo_wf(self.info)
            &&& self.framebuffer@.len() == self.info.byte_len
        }
    }

    /// A writer with no surface yet; the cursor rests at the true origin.
    pub fn empty() -> (r: Self)
        ensures
            !r.installed(),
            r.wf(),
            r.screen().x == 0,
            r.screen().y == 0,
    {
        FrameBufferWriter {
            framebuffer: Vec::new(),
            has_surface: false,
            x_pos: 0,
            y_pos: 0,
            info: FrameBufferInfo {
                byte_len: 0,
                width: 0,
                height: 0,
                pixel_format: PixelFormat::Rgb,
                bytes_per_pixel: 0,
                stride: 0,
            },
        }
    }

    /// Installs (or reinstalls) the surface: takes ownership of the byte
    /// buffer, records the geometry, clears every byte and resets the cursor
    /// to the padded origin.
    pub fn init(&mut self, framebuffer: Vec<u8>, info: FrameBufferInfo)
        requires
            geo_wf(info),
            framebuffer@.len() == info.byte_len,
        ensures
            final(self).installed(),
            final(self).wf(),
            final(self).spec_info() == info,
            final(self).screen() == (Screen {
                buf: zero_bytes(info.byte_len as nat),
                x: BORDER_PADDING as int,
                y: BORDER_PADDING as int,
            }),
    {
        self.framebuffer = framebuffer;
        self.has_surface = true;
        self.info = info;
        self.x_pos = 0;
        self.y_pos = 0;
        self.clear();
    }

    /// Overrides each cursor coordinate that is present; no bounds check, an
    /// out-of-range cursor is corrected lazily by the next write.
    pub fn set_x_y_pos(&mut self, x_pos: Option<usize>, y_pos: Option<usize>)
        ensures
            final(self).screen().x == (if x_pos is Some {
                x_pos->Some_0 as int
            } else {
                old(self).screen().x
            }),
            final(self).screen().y == (if y_pos is Some {
                y_pos->Some_0 as int
            } else {
                old(self).screen().y
            }),
            final(self).screen().buf == old(self).screen().buf,
            final(self).installed() == old(self).installed(),
            final(self).spec_info() == old(self).spec_info(),
            final(self).wf() == old(self).wf(),
    {
        self.x_pos = match x_pos {
            Some(x) => x,
            None => self.x_pos,
        };
        self.y_pos = match y_pos {
            Some(y) => y,
            None => self.y_pos,
        };
    }

    /// Erases all text: zeroes every surface byte and resets the cursor to
    /// the padded origin.
    pub fn clear(&mut self)
        requires
            old(self).installed(),
        ensures
            final(self).installed(),
            final(self).wf() == old(self).wf(),
            final(self).spec_info() == old(self).spec_info(),
            final(self).screen() == (Screen {
                buf: zero_bytes(old(self).screen().buf.len()),
                x: BORDER_PADDING as int,
                y: BORDER_PADDING as int,
            }),
    {
        self.x_pos = BORDER_PADDING;
        self.y_pos = BORDER_PADDING;
        let len = self.framebuffer.len();
        let mut i: usize = 0;
        while i < len
            invariant
                i <= len,
                self.framebuffer@.len() == len,
                forall|j: int| 0 <= j < i ==> self.framebuffer@[j] == 0u8,
                self.has_surface == old(self).has_surface,
                self.info == old(self).info,
                self.x_pos == BORDER_PADDING,
                self.y_pos == BORDER_PADDING,
            decreases len - i,
        {
            self.framebuffer[i] = 0;
            i = i + 1;
        }
        proof {
            assert(self.framebuffer@ =~= zero_bytes(old(self).framebuffer@.len()));
        }
    }

    /// Current cursor x, in pixels.
    pub fn x_pos(&self) -> (r: usize)
        ensures
            r as int == self.screen().x,
    {
        self.x_pos
    }

    /// Current cursor y, in pixels.
    pub fn y_pos(&self) -> (r: usize)
        ensures
            r as int == self.screen().y,
    {
        self.y_pos
    }

    /// Whether a surface has been installed.
    pub fn is_installed(&self) -> (r: bool)
        ensures
            r == self.installed(),
    {
        self.has_surface
    }

    /// The installed geometry.
    pub fn info(&self) -> (r: FrameBufferInfo)
        ensures
            r == self.spec_info(),
    {
        self.info
    }

    /// Number of surface bytes.
    pub fn buffer_len(&self) -> (r: usize)
        ensures
            r as nat == self.screen().buf.len(),
    {
        self.framebuffer.len()
    }

    /// One surface byte, for observation.
    pub fn buffer_byte(&self, i: usize) -> (r: u8)
        requires
            i < self.screen().buf.len(),
        ensures
            r == self.screen().buf[i as int],
    {
        self.framebuffer[i]
    }

    fn width(&self) -> (r: usize)
        ensures
            r == self.spec_info().width,
    {
        self.info.width
    }

    fn height(&self) -> (r: usize)
        ensures
            r == self.spec_info().height,
    {
        self.info.height
    }

    /// Stores one pixel's colorized intensity, then reads the written byte
    /// back so that output stays visible on write-combining display memory.
    #[verifier::loop_isolation(false)]
    fn write_pixel(&mut self, x: usize, y: usize, intensity: u8)
        requires
            old(self).installed(),
            old(self).wf(),
            x < old(self).spec_info().width,
            y < old(self).spec_info().height,
        ensures
            final(self).installed(),
            final(self).wf(),
            final(self).spec_info() == old(self).spec_info(),
            final(self).screen().x == old(self).screen().x,
            final(self).screen().y == old(self).screen().y,
            final(self).screen().buf.len() == old(self).screen().buf.len(),
            ({
                let info = old(self).spec_info();
                let off = pix_off(info, x as int, y as int);
                &&& forall|j: int|
                    0 <= j < old(self).screen().buf.len() && !(off <= j < off
                        + info.bytes_per_pixel) ==> final(self).screen().buf[j] == old(
                        self,
                    ).screen().buf[j]
                &&& forall|k: int|
                    0 <= k < info.bytes_per_pixel ==> final(self).screen().buf[off + k]
                        == color_bytes(info.pixel_format, intensity)[k]
            }),
    {
        proof {
            lemma_off_in_bounds(self.info, x as int, y as int);
        }
        let ghost info = self.info;
        let pixel_offset = y * self.info.stride + x;
        let mut color: Vec<u8> = Vec::new();
        match self.info.pixel_format {
            PixelFormat::Rgb => {
                color.push(intensity);
                color.push(intensity);
                color.push(intensity / 2);
                color.push(0);
            },
            PixelFormat::Bgr => {
                color.push(intensity / 2);
                color.push(intensity);
                color.push(intensity);
                color.push(0);
            },
            PixelFormat::U8 => {
                color.push(if intensity > 200 {
                    0xf
                } else {
                    0
                });
                color.push(0);
                color.push(0);
                color.push(0);
            },
        }
        proof {
            assert(color@ =~= color_bytes(self.info.pixel_format, intensity));
        }
        let bytes_per_pixel = self.info.bytes_per_pixel;
        let byte_offset = pixel_offset * bytes_per_pixel;
        proof {
            assert(byte_offset + bytes_per_pixel <= self.framebuffer@.len());
        }
        let mut k: usize = 0;
        while k < bytes_per_pixel
            invariant
                k <= bytes_per_pixel,
                self.framebuffer@.len() == old(self).framebuffer@.len(),
                self.has_surface == old(self).has_surface,
                self.info == old(self).info,
                self.x_pos == old(self).x_pos,
                self.y_pos == old(self).y_pos,
                forall|j: int|
                    0 <= j < self.framebuffer@.len() && !(byte_offset <= j < byte_offset
                        + k) ==> self.framebuffer@[j] == old(self).framebuffer@[j],
                forall|m: int|
                    0 <= m < k ==> self.framebuffer@[byte_offset + m] == color@[m],
            decreases bytes_per_pixel - k,
        {
            self.framebuffer[byte_offset + k] = color[k];
            k = k + 1;
        }
        // Read the just-written byte back: on memory-mapped display hardware
        // this defeats write-combining that could leave output invisible.
        let _probe = self.framebuffer[byte_offset];
    }

    /// Blits a rendered glyph at the cursor and advances the cursor one cell
    /// to the right.
    #[verifier::loop_isolation(false)]
    fn write_rendered_char(&mut self, glyph: &Glyph)
        requires
            old(self).installed(),
            old(self).wf(),
            glyph_wf(glyph@),
            old(self).screen().x + GLYPH_WIDTH <= old(self).spec_info().width,
            old(self).screen().y + GLYPH_HEIGHT <= old(self).spec_info().height,
        ensures
            final(self).installed(),
            final(self).wf(),
            final(self).spec_info() == old(self).spec_info(),
            final(self).screen().buf == blit(
                old(self).spec_info(),
                old(self).screen().buf,
                old(self).screen().x,
                old(self).screen().y,
                glyph@,
            ),
            final(self).screen().x == old(self).screen().x + GLYPH_WIDTH + LETTER_SPACING,
            final(self).screen().y == old(self).screen().y,
    {
        let x0 = self.x_pos;
        let y0 = self.y_pos;
        let ghost info = self.info;
        let ghost buf0 = self.framebuffer@;
        let ghost grid = glyph@;
        proof {
            assert(blit_part(info, buf0, x0 as int, y0 as int, grid, 0, 0) =~= buf0);
        }
        let mut gy: usize = 0;
        while gy < GLYPH_HEIGHT
            invariant
                gy <= GLYPH_HEIGHT,
                self.framebuffer@ == blit_part(info, buf0, x0 as int, y0 as int, grid, gy as int, 0),
                self.framebuffer@.len() == buf0.len(),
                self.x_pos == x0,
                self.y_pos == y0,
                self.has_surface == old(self).has_surface,
                self.info == old(self).info,
            decreases GLYPH_HEIGHT - gy,
        {
            let mut gx: usize = 0;
            while gx < GLYPH_WIDTH
                invariant
                    gx <= GLYPH_WIDTH,
                    gy < GLYPH_HEIGHT,
                    self.framebuffer@ == blit_part(
                        info,
                        buf0,
                        x0 as int,
                        y0 as int,
                        grid,
                        gy as int,
                        gx as int,
                    ),
                    self.framebuffer@.len() == buf0.len(),
                    self.x_pos == x0,
                    self.y_pos == y0,
                    self.has_surface == old(self).has_surface,
                    self.info == old(self).info,
                decreases GLYPH_WIDTH - gx,
            {
                proof {
                    assert(grid[gy as int] == glyph.rows@[gy as int]@);
                    assert(grid[gy as int].len() == GLYPH_WIDTH);
                }
                let intensity = glyph.rows[gy][gx];
                proof {
                    assert(intensity == grid[gy as int][gx as int]);
                }
                let ghost prev = self.framebuffer@;
                self.write_pixel(x0 + gx, y0 + gy, intensity);
                proof {
                    lemma_blit_step(
                        info,
                        buf0,
                        prev,
                        self.framebuffer@,
                        x0 as int,
                        y0 as int,
                        grid,
                        gy as int,
                        gx as int,
                    );
                }
                gx = gx + 1;
            }
            proof {
                lemma_blit_row_done(info, buf0, x0 as int, y0 as int, grid, gy as int);
            }
            gy = gy + 1;
        }
        self.x_pos = x0 + GLYPH_WIDTH + LETTER_SPACING;
    }

    fn newline(&mut self)
        requires
            old(self).screen().y + GLYPH_HEIGHT + LINE_SPACING <= usize::MAX,
        ensures
            final(self).installed() == old(self).installed(),
            final(self).wf() == old(self).wf(),
            final(self).spec_info() == old(self).spec_info(),
            final(self).screen() == step_newline(old(self).screen()),
    {
        self.y_pos = self.y_pos + (GLYPH_HEIGHT + LINE_SPACING);
        self.carriage_return();
    }

    fn carriage_return(&mut self)
        ensures
            final(self).installed() == old(self).installed(),
            final(self).wf() == old(self).wf(),
            final(self).spec_info() == old(self).spec_info(),
            final(self).screen() == step_carriage_return(old(self).screen()),
    {
        self.x_pos = BORDER_PADDING;
    }

    /// Erases one glyph cell leftward, wrapping to the rightmost cell of the
    /// previous line at the left padding boundary.
    fn backspace(&mut self)
        requires
            old(self).installed(),
            old(self).wf(),
            char_ok(old(self).spec_info(), old(self).screen(), BACKSPACE),
        ensures
            final(self).installed(),
            final(self).wf(),
            final(self).spec_info() == old(self).spec_info(),
            final(self).screen() == step_backspace(old(self).spec_info(), old(self).screen()),
    {
        let new_xpos = self.x_pos - GLYPH_WIDTH;
        if new_xpos <= BORDER_PADDING {
            // left border: first blank the cell at the post-step x, before
            // moving up in the y axis
            self.x_pos = new_xpos;
            let blank = get_char_raster(' ');
            self.write_rendered_char(&blank);
            // move y up if not on the first line
            if self.y_pos > GLYPH_HEIGHT + LINE_SPACING + BORDER_PADDING {
                self.y_pos = self.y_pos - (GLYPH_HEIGHT + LINE_SPACING);
            }
            // move x to the right end
            self.x_pos = self.width() - GLYPH_WIDTH - BORDER_PADDING;
        } else {
            // simply move x one step to the left
            self.x_pos = self.x_pos - GLYPH_WIDTH;
        }
        let blank = get_char_raster(' ');
        self.write_rendered_char(&blank);
        self.x_pos = self.x_pos - GLYPH_WIDTH;
    }

    /// Writes a single character, handling the control characters: backspace
    /// erases leftward, newline and carriage return move the cursor, anything
    /// else is rasterized and blitted with wrap and wrap-to-blank-screen.
    pub fn write_char(&mut self, c: char)
        requires
            old(self).installed(),
            old(self).wf(),
            char_ok(old(self).spec_info(), old(self).screen(), c),
        ensures
            final(self).installed(),
            final(self).wf(),
            final(self).spec_info() == old(self).spec_info(),
            final(self).screen() == step_char(
                old(self).spec_info(),
                old(self).screen(),
                c,
            ),
    {
        if c == BACKSPACE {
            self.backspace();
        } else if c == '\n' {
            self.newline();
        } else if c == '\r' {
            self.carriage_return();
        } else {
            let new_xpos = self.x_pos + GLYPH_WIDTH;
            if new_xpos >= self.width() {
                self.newline();
            }
            let new_ypos = self.y_pos + (GLYPH_HEIGHT + BORDER_PADDING);
            if new_ypos >= self.height() {
                // no scrollback: wrap to a blank screen instead of scrolling
                self.clear();
            }
            let glyph = get_char_raster(c);
            self.write_rendered_char(&glyph);
        }
    }

    /// Writes each character of the text in order.
    #[verifier::loop_isolation(false)]
    pub fn write_text(&mut self, text: &Vec<char>)
        requires
            old(self).installed(),
            old(self).wf(),
            chars_ok(old(self).spec_info(), old(self).screen(), text@),
        ensures
            final(self).installed(),
            final(self).wf(),
            final(self).spec_info() == old(self).spec_info(),
            final(self).screen() == run_chars(
                old(self).spec_info(),
                old(self).screen(),
                text@,
            ),
            text@.len() == 0 ==> final(self).screen() == old(self).screen(),
    {
        let ghost info = self.info;
        let ghost s0 = self.screen();
        proof {
            assert(text@.skip(0) =~= text@);
            assert(text@.take(0) =~= Seq::<char>::empty());
        }
        let n = text.len();
        let mut i: usize = 0;
        while i < n
            invariant
                i <= n,
                self.installed(),
                self.wf(),
                self.spec_info() == info,
                self.screen() == run_chars(info, s0, text@.take(i as int)),
                chars_ok(info, self.screen(), text@.skip(i as int)),
            decreases n - i,
        {
            let c = text[i];
            proof {
                assert(text@.skip(i as int)[0] == c);
            }
            self.write_char(c);
            proof {
                lemma_run_take_succ(info, s0, text@, i as int);
                assert(text@.skip(i as int).skip(1) =~= text@.skip(i + 1));
            }
            i = i + 1;
        }
        proof {
            assert(text@.take(n as int) =~= text@);
        }
    }
}

/// Running a sequence extended by one character steps the machine once more.
proof fn lemma_run_push(info: FrameBufferInfo, s: Screen, cs: Seq<char>, c: char)
    ensures
        run_chars(info, s, cs.push(c)) == step_char(info, run_chars(info, s, cs), c),
    decreases cs.len(),
{
    if cs.len() == 0 {
        assert(cs.push(c)[0] == c);
        assert(cs.push(c).skip(1) =~= Seq::<char>::empty());
        assert(run_chars(info, s, cs) == s);
        assert(run_chars(info, step_char(info, s, c), Seq::<char>::empty()) == step_char(
            info,
            s,
            c,
        ));
    } else {
        assert(cs.push(c)[0] == cs[0]);
        assert(cs.push(c).skip(1) =~= cs.skip(1).push(c));
        lemma_run_push(info, step_char(info, s, cs[0]), cs.skip(1), c);
    }
}

/// What a blit means, read back through pixel coordinates: inside the glyph
/// rectangle, channel `k` of pixel (gx, gy) holds the colorization of that
/// pixel's intensity.
pub proof fn lemma_blit_reads(
    info: FrameBufferInfo,
    buf: Seq<u8>,
    x: int,
    y: int,
    grid: Seq<Seq<u8>>,
    gx: int,
    gy: int,
    k: int,
)
    requires
        geo_wf(info),
        glyph_wf(grid),
        buf.len() == info.byte_len,
        0 <= x,
        x + GLYPH_WIDTH <= info.width,
        0 <= y,
        y + GLYPH_HEIGHT <= info.height,
        0 <= gx < GLYPH_WIDTH,
        0 <= gy < GLYPH_HEIGHT,
        0 <= k < info.bytes_per_pixel,
    ensures
        blit(info, buf, x, y, grid)[pix_off(info, x + gx, y + gy) + k] == color_bytes(
            info.pixel_format,
            grid[gy][gx],
        )[k],
{
    lemma_off_in_bounds(info, x + gx, y + gy);
    lemma_byte_pixel_iff(info, x + gx, y + gy, pix_off(info, x + gx, y + gy) + k);
}

/// What a blit means outside the glyph rectangle: a byte whose pixel does not
/// lie in the rectangle keeps its value.
pub proof fn lemma_blit_preserves_outside(
    info: FrameBufferInfo,
    buf: Seq<u8>,
    x: int,
    y: int,
    grid: Seq<Seq<u8>>,
    j: int,
)
    requires
        0 <= j < buf.len(),
        ({
            let p = j / (info.bytes_per_pixel as int);
            let py = p / (info.stride as int);
            let px = p % (info.stride as int);
            !(y <= py < y + grid.len() && x <= px < x + GLYPH_WIDTH)
        }),
    ensures
        blit(info, buf, x, y, grid)[j] == buf[j],
{
}

/// Law: for any geometry and surface size, a clear followed by writing the
/// empty text leaves the cursor at the fixed padded origin and every surface
/// byte zero.
pub proof fn lemma_clear_then_write_empty(info: FrameBufferInfo, len: nat)
    ensures
        ({
            let cleared = Screen {
                buf: zero_bytes(len),
                x: BORDER_PADDING as int,
                y: BORDER_PADDING as int,
            };
            let r = run_chars(info, cleared, Seq::<char>::empty());
            &&& r.x == BORDER_PADDING
            &&& r.y == BORDER_PADDING
            &&& forall|j: int| 0 <= j < len ==> r.buf[j] == 0u8
        }),
{
}

/// Law: a printable character that does not cross the wrap thresholds
/// advances x by exactly one glyph cell plus letter spacing and keeps y.
pub proof fn lemma_print_advances_x(info: FrameBufferInfo, s: Screen, c: char)
    requires
        c != BACKSPACE,
        c != '\n',
        c != '\r',
        s.x + GLYPH_WIDTH < info.width,
        s.y + GLYPH_HEIGHT + BORDER_PADDING < info.height,
    ensures
        step_char(info, s, c).x == s.x + GLYPH_WIDTH + LETTER_SPACING,
        step_char(info, s, c).y == s.y,
{
}

/// Law: a printable character that crosses the wrap threshold, with room
/// above the bottom edge, resets x to the left padding before advancing one
/// cell, and increases y by one line pitch.
pub proof fn lemma_print_wraps_line(info: FrameBufferInfo, s: Screen, c: char)
    requires
        c != BACKSPACE,
        c != '\n',
        c != '\r',
        s.x + GLYPH_WIDTH >= info.width,
        s.y + (GLYPH_HEIGHT + LINE_SPACING) + GLYPH_HEIGHT + BORDER_PADDING < info.height,
    ensures
        step_char(info, s, c).x == BORDER_PADDING + GLYPH_WIDTH + LETTER_SPACING,
        step_char(info, s, c).y == s.y + GLYPH_HEIGHT + LINE_SPACING,
{
}

/// Law: over a sequence of printable characters none of which crosses a wrap
/// threshold, x advances monotonically by one glyph cell plus letter spacing
/// per character, and y never changes.
pub proof fn lemma_text_advances_monotonically(info: FrameBufferInfo, s: Screen, cs: Seq<char>)
    requires
        forall|i: int|
            0 <= i < cs.len() ==> cs[i] != BACKSPACE && cs[i] != '\n' && cs[i] != '\r',
        s.x >= 0,
        cs.len() > 0 ==> s.x + (cs.len() - 1) * ((GLYPH_WIDTH + LETTER_SPACING) as int)
            + GLYPH_WIDTH < info.width,
        s.y + GLYPH_HEIGHT + BORDER_PADDING < info.height,
    ensures
        run_chars(info, s, cs).x == s.x + cs.len() * ((GLYPH_WIDTH + LETTER_SPACING) as int),
        run_chars(info, s, cs).y == s.y,
    decreases cs.len(),
{
    if cs.len() > 0 {
        lemma_print_advances_x(info, s, cs[0]);
        lemma_text_advances_monotonically(info, step_char(info, s, cs[0]), cs.skip(1));
    }
}

/// Law: a backspace immediately after a printable character that neither
/// wrapped nor started at the left padding returns the cursor to its
/// pre-write position (round trip).
pub proof fn lemma_backspace_round_trip(info: FrameBufferInfo, s: Screen, c: char)
    requires
        c != BACKSPACE,
        c != '\n',
        c != '\r',
        s.x > BORDER_PADDING,
        s.x + GLYPH_WIDTH < info.width,
        s.y + GLYPH_HEIGHT + BORDER_PADDING < info.height,
    ensures
        step_char(info, step_char(info, s, c), BACKSPACE).x == s.x,
        step_char(info, step_char(info, s, c), BACKSPACE).y == s.y,
{
}

/// Law: a backspace at the left padding boundary of a non-first line moves
/// the cursor to the rightmost glyph cell of the previous line.
pub proof fn lemma_backspace_wraps_to_previous_line(info: FrameBufferInfo, s: Screen)
    requires
        GLYPH_WIDTH <= s.x,
        s.x - GLYPH_WIDTH <= BORDER_PADDING,
        s.y > GLYPH_HEIGHT + LINE_SPACING + BORDER_PADDING,
    ensures
        step_char(info, s, BACKSPACE).x == info.width - GLYPH_WIDTH - BORDER_PADDING,
        step_char(info, s, BACKSPACE).y == s.y - (GLYPH_HEIGHT + LINE_SPACING),
{
}

/// Law: on the first display line the same boundary backspace keeps y: the
/// cursor only moves to the rightmost glyph cell of that line.
pub proof fn lemma_backspace_first_line_keeps_y(info: FrameBufferInfo, s: Screen)
    requires
        GLYPH_WIDTH <= s.x,
        s.x - GLYPH_WIDTH <= BORDER_PADDING,
        s.y <= GLYPH_HEIGHT + LINE_SPACING + BORDER_PADDING,
    ensures
        step_char(info, s, BACKSPACE).x == info.width - GLYPH_WIDTH - BORDER_PADDING,
        step_char(info, s, BACKSPACE).y == s.y,
{
}

/// Running one more character of a prefix steps the machine once more.
proof fn lemma_run_take_succ(info: FrameBufferInfo, s: Screen, cs: Seq<char>, i: int)
    requires
        0 <= i < cs.len(),
    ensures
        run_chars(info, s, cs.take(i + 1)) == step_char(
            info,
            run_chars(info, s, cs.take(i)),
            cs[i],
        ),
{
    assert(cs.take(i).push(cs[i]) =~= cs.take(i + 1));
    lemma_run_push(info, s, cs.take(i), cs[i]);
}

/// After the last pixel of a row, the partial blit equals the partial blit
/// that starts the next row.
proof fn lemma_blit_row_done(
    info: FrameBufferInfo,
    buf0: Seq<u8>,
    x: int,
    y: int,
    grid: Seq<Seq<u8>>,
    gy: int,
)
    requires
        0 <= gy,
    ensures
        blit_part(info, buf0, x, y, grid, gy, GLYPH_WIDTH as int) == blit_part(
            info,
            buf0,
            x,
            y,
            grid,
            gy + 1,
            0,
        ),
{
    assert forall|j: int| 0 <= j < buf0.len() implies blit_byte(
        info,
        buf0,
        x,
        y,
        grid,
        gy,
        GLYPH_WIDTH as int,
        j,
    ) == blit_byte(info, buf0, x, y, grid, gy + 1, 0, j) by {
        assert(blit_cond(info, x, y, grid, gy, GLYPH_WIDTH as int, j) == blit_cond(
            info,
            x,
            y,
            grid,
            gy + 1,
            0,
            j,
        ));
    }
    assert(blit_part(info, buf0, x, y, grid, gy, GLYPH_WIDTH as int) =~= blit_part(
        info,
        buf0,
        x,
        y,
        grid,
        gy + 1,
        0,
    ));
}

/// Decodes a byte index into pixel coordinates: byte `j` lies in pixel
/// (x, y)'s byte range exactly when its decoded coordinates are (x, y).
proof fn lemma_byte_pixel_iff(info: FrameBufferInfo, x: int, y: int, j: int)
    requires
        geo_wf(info),
        0 <= x < info.stride,
        0 <= y,
        0 <= j,
    ensures
        ({
            let bpp = info.bytes_per_pixel as int;
            let s = info.stride as int;
            let p = j / bpp;
            let py = p / s;
            let px = p % s;
            &&& (pix_off(info, x, y) <= j < pix_off(info, x, y) + bpp) <==> (py == y && px == x)
            &&& 0 <= j % bpp < bpp
            &&& (pix_off(info, x, y) <= j < pix_off(info, x, y) + bpp) ==> j % bpp == j - pix_off(
                info,
                x,
                y,
            )
        }),
{
    let bpp = info.bytes_per_pixel as int;
    let s = info.stride as int;
    let p = j / bpp;
    let k = j % bpp;
    let off = pix_off(info, x, y);
    lemma_mod_bound(j, bpp);
    lemma_fundamental_div_mod(j, bpp);
    if off <= j < off + bpp {
        lemma_fundamental_div_mod_converse(j, bpp, y * s + x, j - off);
        lemma_fundamental_div_mod_converse(p, s, y, x);
    }
    if p / s == y && p % s == x {
        lemma_fundamental_div_mod(p, s);
        assert(p == y * s + x);
        assert(off == p * bpp);
        assert(off <= j < off + bpp);
    }
}

/// One pixel write extends a partial row-major blit by one pixel.
proof fn lemma_blit_step(
    info: FrameBufferInfo,
    buf0: Seq<u8>,
    buf1: Seq<u8>,
    buf2: Seq<u8>,
    x: int,
    y: int,
    grid: Seq<Seq<u8>>,
    gy: int,
    gx: int,
)
    requires
        geo_wf(info),
        glyph_wf(grid),
        buf0.len() == info.byte_len,
        buf1.len() == info.byte_len,
        buf2.len() == info.byte_len,
        0 <= gy < GLYPH_HEIGHT,
        0 <= gx < GLYPH_WIDTH,
        0 <= x,
        x + GLYPH_WIDTH <= info.width,
        0 <= y,
        y + GLYPH_HEIGHT <= info.height,
        buf1 == blit_part(info, buf0, x, y, grid, gy, gx),
        forall|j: int|
            0 <= j < buf1.len() && !(pix_off(info, x + gx, y + gy) <= j < pix_off(
                info,
                x + gx,
                y + gy,
            ) + info.bytes_per_pixel) ==> buf2[j] == buf1[j],
        forall|k: int|
            0 <= k < info.bytes_per_pixel ==> buf2[pix_off(info, x + gx, y + gy) + k]
                == color_bytes(info.pixel_format, grid[gy][gx])[k],
    ensures
        buf2 == blit_part(info, buf0, x, y, grid, gy, gx + 1),
{
    let bpp = info.bytes_per_pixel as int;
    let s = info.stride as int;
    let off = pix_off(info, x + gx, y + gy);
    lemma_off_in_bounds(info, x + gx, y + gy);
    assert forall|j: int| 0 <= j < buf2.len() implies buf2[j] == blit_byte(
        info,
        buf0,
        x,
        y,
        grid,
        gy,
        gx + 1,
        j,
    ) by {
        lemma_byte_pixel_iff(info, x + gx, y + gy, j);
        let p = j / bpp;
        let py = p / s;
        let px = p % s;
        let k = j % bpp;
        if off <= j < off + bpp {
            assert(py == y + gy && px == x + gx);
            assert(buf2[j] == color_bytes(info.pixel_format, grid[gy][gx])[k]);
            assert(blit_cond(info, x, y, grid, gy, gx + 1, j));
            assert(blit_byte(info, buf0, x, y, grid, gy, gx + 1, j) == color_bytes(
                info.pixel_format,
                grid[py - y][px - x],
            )[k]);
        } else {
            assert(!(py == y + gy && px == x + gx));
            assert(blit_cond(info, x, y, grid, gy, gx + 1, j) == blit_cond(
                info,
                x,
                y,
                grid,
                gy,
                gx,
                j,
            ));
            assert(buf2[j] == buf1[j]);
            assert(buf1[j] == blit_byte(info, buf0, x, y, grid, gy, gx, j));
        }
    }
    assert(buf2 =~= blit_part(info, buf0, x, y, grid, gy, gx + 1));
}

/// Pixel (x, y) of a drawable geometry has all its bytes inside the surface.
proof fn lemma_off_in_bounds(info: FrameBufferInfo, x: int, y: int)
    requires
        geo_wf(info),
        0 <= x < info.width,
        0 <= y < info.height,
    ensures
        0 <= pix_off(info, x, y),
        pix_off(info, x, y) + info.bytes_per_pixel <= info.byte_len,
        y * info.stride + x >= 0,
        y * info.stride + x + 1 <= info.byte_len,
{
    assert(0 <= y * info.stride + x && y * info.stride + x + 1 <= info.stride * info.height
        && info.stride * info.height <= info.stride * info.height * info.bytes_per_pixel
        && (y * info.stride + x + 1) * info.bytes_per_pixel <= info.stride * info.height
        * info.bytes_per_pixel && 0 <= (y * info.stride + x) * info.bytes_per_pixel && (y
        * info.stride + x) * info.bytes_per_pixel + info.bytes_per_pixel == (y * info.stride + x
        + 1) * info.bytes_per_pixel) by (nonlinear_arith)
        requires
            0 <= x < info.width,
            0 <= y < info.height,
            info.stride >= info.width,
            info.bytes_per_pixel >= 1,
    ;
}

} // verus!
