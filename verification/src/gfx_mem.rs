//! `gfx.mem`: a framebuffer in memory.
use vstd::prelude::*;
use vstd::string::*;

use crate::bytes::{dword_le, law_le32_is_found, le32, push_le32, zero_bytes, zero_vec};
use crate::gfx::{
    check_bounds, check_buffer, inside, lemma_inside_area, packed_len, refusal, GfxError, ModeInfo,
    Rect,
};
use crate::text::{decimal, push_decimal};

verus! {

/// The longest side that `configure` accepts.
pub const MAX_DIM: u32 = 4096;

/// The geometry of a framebuffer that was not configured.
pub const DEFAULT_WIDTH: u32 = 640;

pub const DEFAULT_HEIGHT: u32 = 480;

/// A framebuffer: its geometry and its pixels, row by row.
#[derive(Debug)]
pub struct Framebuffer {
    pub width: u32,
    pub height: u32,
    pub pixels: Vec<u8>,
}

/// Where the byte at a column of a row lies, with rows of `stride` bytes.
pub open spec fn place(stride: int, row: int, column: int) -> int {
    row * stride + column
}

/// Whether the byte at a column of a row belongs to a rectangle.
pub open spec fn covers(rect: Rect, row: int, column: int) -> bool {
    rect.y <= row < rect.y + rect.height && 4 * rect.x <= column < 4 * (rect.x + rect.width)
}

/// The byte of a rectangle's packed pixels that belongs at a column of a row.
pub open spec fn packed_at(rect: Rect, row: int, column: int) -> int {
    place(4 * rect.width, row - rect.y, column - 4 * rect.x)
}

impl Framebuffer {
    /// The bytes of one row.
    pub open spec fn stride(self) -> int {
        4 * self.width
    }

    /// The sides are in bounds, and there are as many pixels as the geometry says.
    pub open spec fn wf(self) -> bool {
        &&& 1 <= self.width <= MAX_DIM
        &&& 1 <= self.height <= MAX_DIM
        &&& self.pixels@.len() == self.height * self.stride()
    }

    /// The byte at a column of a row.
    pub open spec fn byte(self, row: int, column: int) -> u8 {
        self.pixels@[place(self.stride(), row, column)]
    }

    /// Whether a row and a column exist.
    pub open spec fn has(self, row: int, column: int) -> bool {
        0 <= row < self.height && 0 <= column < self.stride()
    }
}

/// A zero-filled framebuffer.
pub fn make_framebuffer(width: u32, height: u32) -> (fb: Framebuffer)
    requires
        1 <= width <= MAX_DIM,
        1 <= height <= MAX_DIM,
    ensures
        fb.wf(),
        fb.width == width,
        fb.height == height,
        fb.pixels@ == zero_bytes((height * (4 * width)) as nat),
{
    assert(height * (4 * width) <= 0x400_0000) by (nonlinear_arith)
        requires
            width <= 4096,
            height <= 4096,
    ;
    let len: usize = height as usize * (4 * width as usize);
    Framebuffer { width, height, pixels: zero_vec(len) }
}

/// The framebuffer of a provider, which starts as the default one.
pub fn with_framebuffer(state: &mut Option<Framebuffer>) -> (fb: &mut Framebuffer)
    ensures
        *old(state) matches Some(there) ==> *fb == there,
        *old(state) is None ==> fb.width == DEFAULT_WIDTH && fb.height == DEFAULT_HEIGHT
            && fb.pixels@ == zero_bytes((DEFAULT_HEIGHT * (4 * DEFAULT_WIDTH)) as nat) && fb.wf(),
        *final(state) == Some(*final(fb)),
{
    if state.is_none() {
        *state = Some(make_framebuffer(DEFAULT_WIDTH, DEFAULT_HEIGHT));
    }
    state.as_mut().unwrap()
}

/// What is said of a geometry that `configure` refuses.
pub open spec fn bad_geometry(width: u32, height: u32) -> Seq<char> {
    "framebuffer geometry must be 1..=4096 on each side, got "@ + decimal(width as nat) + "x"@
        + decimal(height as nat)
}

/// Replace the framebuffer by a zero-filled one of this geometry.
pub fn configure(state: &mut Option<Framebuffer>, width: u32, height: u32) -> (result: Result<
    (),
    String,
>)
    ensures
        match result {
            Ok(_) => {
                &&& 1 <= width <= MAX_DIM && 1 <= height <= MAX_DIM
                &&& *final(state) matches Some(fb) && fb.wf() && fb.width == width && fb.height
                    == height && fb.pixels@ == zero_bytes((height * (4 * width)) as nat)
            },
            Err(text) => {
                &&& !(1 <= width <= MAX_DIM && 1 <= height <= MAX_DIM)
                &&& text@ == bad_geometry(width, height)
                &&& *final(state) == *old(state)
            },
        },
{
    if width == 0 || height == 0 || width > MAX_DIM || height > MAX_DIM {
        let mut text = String::from_str(
            "framebuffer geometry must be 1..=4096 on each side, got ",
        );
        push_decimal(&mut text, width as u64);
        text.append("x");
        push_decimal(&mut text, height as u64);
        return Err(text);
    }
    *state = Some(make_framebuffer(width, height));
    Ok(())
}

proof fn lemma_places_differ(stride: int, row: int, column: int, other_row: int, other_column: int)
    requires
        0 <= column < stride,
        0 <= other_column < stride,
        row != other_row || column != other_column,
    ensures
        place(stride, row, column) != place(stride, other_row, other_column),
{
    if row < other_row {
        assert(row * stride + stride <= other_row * stride) by (nonlinear_arith)
            requires
                row + 1 <= other_row,
                stride >= 0,
        ;
    } else if other_row < row {
        assert(other_row * stride + stride <= row * stride) by (nonlinear_arith)
            requires
                other_row + 1 <= row,
                stride >= 0,
        ;
    }
}

proof fn lemma_place_bounds(stride: int, rows: int, row: int, column: int)
    requires
        0 <= row < rows,
        0 <= column < stride,
    ensures
        0 <= place(stride, row, column) < rows * stride,
{
    assert(0 <= row * stride && row * stride + stride <= rows * stride) by (nonlinear_arith)
        requires
            0 <= row < rows,
            stride >= 0,
    ;
}

impl Framebuffer {
    /// The geometry.
    pub fn mode(&self) -> (mode: ModeInfo)
        requires
            self.wf(),
        ensures
            mode == (ModeInfo {
                width: self.width,
                height: self.height,
                stride: (4 * self.width) as u32,
            }),
    {
        ModeInfo { width: self.width, height: self.height, stride: self.width * 4 }
    }

    /// The row length of the framebuffer, the row length of a rectangle and the offset of
    /// its first pixel, in bytes; the rectangle must lie within the framebuffer.
    pub fn check_rect(&self, rect: &Rect) -> (result: Result<(usize, usize, usize), GfxError>)
        requires
            self.wf(),
        ensures
            match result {
                Ok((stride, row_bytes, start)) => {
                    &&& inside(self.width, self.height, *rect)
                    &&& stride == self.stride()
                    &&& row_bytes == 4 * rect.width
                    &&& start == place(self.stride(), rect.y as int, 4 * rect.x)
                },
                Err(error) => error is OutOfBounds && !inside(self.width, self.height, *rect),
            },
    {
        match check_bounds(self.width, self.height, rect) {
            Ok(_) => {},
            Err(error) => return Err(error),
        }
        let stride: usize = self.width as usize * 4;
        let row_bytes: usize = rect.width as usize * 4;
        assert(rect.y * stride <= 0x400_0000) by (nonlinear_arith)
            requires
                rect.y <= 4096,
                stride <= 16384,
        ;
        let start: usize = rect.y as usize * stride + rect.x as usize * 4;
        Ok((stride, row_bytes, start))
    }

    /// Put the packed pixels of a rectangle into the framebuffer.
    pub fn present(&mut self, dst: &Rect, src: &[u8]) -> (result: Result<(), GfxError>)
        requires
            old(self).wf(),
        ensures
            final(self).wf(),
            final(self).width == old(self).width,
            final(self).height == old(self).height,
            match result {
                Ok(_) => {
                    &&& refusal(old(self).width, old(self).height, *dst, src@.len() as u64) is None
                    &&& forall|row: int, column: int|
                        old(self).has(row, column) ==> #[trigger] final(self).byte(row, column)
                            == if covers(*dst, row, column) {
                            src@[packed_at(*dst, row, column)]
                        } else {
                            old(self).byte(row, column)
                        }
                },
                Err(error) => {
                    &&& refusal(old(self).width, old(self).height, *dst, src@.len() as u64)
                        == Some(error@)
                    &&& *final(self) == *old(self)
                },
            },
    {
        let (stride, row_bytes, start) = match self.check_rect(dst) {
            Ok(geometry) => geometry,
            Err(error) => return Err(error),
        };
        match check_buffer(dst, src.len() as u64) {
            Ok(_) => {},
            Err(error) => return Err(error),
        }
        self.paint(dst, src, stride, row_bytes, start);
        Ok(())
    }

    fn paint(&mut self, dst: &Rect, src: &[u8], stride: usize, row_bytes: usize, start: usize)
        requires
            old(self).wf(),
            inside(old(self).width, old(self).height, *dst),
            packed_len(*dst) <= src@.len(),
            stride == old(self).stride(),
            row_bytes == 4 * dst.width,
            start == place(old(self).stride(), dst.y as int, 4 * dst.x),
        ensures
            final(self).wf(),
            final(self).width == old(self).width,
            final(self).height == old(self).height,
            forall|row: int, column: int|
                old(self).has(row, column) ==> #[trigger] final(self).byte(row, column)
                    == if covers(*dst, row, column) {
                    src@[packed_at(*dst, row, column)]
                } else {
                    old(self).byte(row, column)
                },
    {
        let mut row: usize = 0;
        while row < dst.height as usize
            invariant
                row <= dst.height,
                old(self).wf(),
                self.wf(),
                self.width == old(self).width,
                self.height == old(self).height,
                inside(self.width, self.height, *dst),
                packed_len(*dst) <= src@.len(),
                stride == self.stride(),
                row_bytes == 4 * dst.width,
                start == place(self.stride(), dst.y as int, 4 * dst.x),
                forall|r: int, c: int|
                    old(self).has(r, c) ==> #[trigger] self.byte(r, c) == if covers(*dst, r, c)
                        && r < dst.y + row {
                        src@[packed_at(*dst, r, c)]
                    } else {
                        old(self).byte(r, c)
                    },
            decreases dst.height - row,
        {
            let mut k: usize = 0;
            while k < row_bytes
                invariant
                    k <= row_bytes,
                    row < dst.height,
                    old(self).wf(),
                    self.wf(),
                    self.width == old(self).width,
                    self.height == old(self).height,
                    inside(self.width, self.height, *dst),
                    packed_len(*dst) <= src@.len(),
                    stride == self.stride(),
                    row_bytes == 4 * dst.width,
                    start == place(self.stride(), dst.y as int, 4 * dst.x),
                    forall|r: int, c: int|
                        old(self).has(r, c) ==> #[trigger] self.byte(r, c) == if covers(*dst, r, c)
                            && (r < dst.y + row || (r == dst.y + row && c < 4 * dst.x + k)) {
                            src@[packed_at(*dst, r, c)]
                        } else {
                            old(self).byte(r, c)
                        },
                decreases row_bytes - k,
            {
                let ghost at = (dst.y + row, 4 * dst.x + k);
                proof {
                    lemma_place_bounds(stride as int, self.height as int, at.0, at.1);
                    lemma_place_bounds(row_bytes as int, dst.height as int, row as int, k as int);
                    assert((dst.y + row) * stride == dst.y * stride + row * stride)
                        by (nonlinear_arith);
                    assert(dst.height * row_bytes == packed_len(*dst)) by (nonlinear_arith)
                        requires
                            row_bytes == 4 * dst.width,
                            packed_len(*dst) == dst.width * dst.height * 4,
                    ;
                    assert(self.height * stride <= 0x400_0000) by (nonlinear_arith)
                        requires
                            self.height <= 4096,
                            stride <= 16384,
                    ;
                    assert(row * stride >= 0) by (nonlinear_arith)
                        requires
                            row >= 0,
                            stride >= 0,
                    ;
                    assert(row * row_bytes >= 0) by (nonlinear_arith)
                        requires
                            row >= 0,
                            row_bytes >= 0,
                    ;
                    assert(dst.y * stride >= 0) by (nonlinear_arith)
                        requires
                            dst.y >= 0,
                            stride >= 0,
                    ;
                }
                assert(src.len() == src@.len());
                let to: usize = start + row * stride + k;
                let from: usize = row * row_bytes + k;
                let ghost before = *self;
                self.pixels.set(to, src[from]);
                proof {
                    assert(to == place(stride as int, at.0, at.1));
                    assert(packed_at(*dst, at.0, at.1) == from);
                    assert forall|r: int, c: int| old(self).has(r, c) implies #[trigger] self.byte(
                        r,
                        c,
                    ) == if covers(*dst, r, c) && (r < dst.y + row || (r == dst.y + row && c < 4
                        * dst.x + k + 1)) {
                        src@[packed_at(*dst, r, c)]
                    } else {
                        old(self).byte(r, c)
                    } by {
                        lemma_place_bounds(stride as int, self.height as int, r, c);
                        assert(before.byte(r, c) == before.byte(r, c));
                        if r == at.0 && c == at.1 {
                        } else {
                            lemma_places_differ(stride as int, r, c, at.0, at.1);
                            assert(self.byte(r, c) == before.byte(r, c));
                        }
                    }
                }
                k = k + 1;
            }
            row = row + 1;
        }
    }

    /// The packed pixels of a rectangle.
    pub fn read(&self, src: &Rect, buffer_len: u64) -> (result: Result<Vec<u8>, GfxError>)
        requires
            self.wf(),
        ensures
            match result {
                Ok(bytes) => {
                    &&& refusal(self.width, self.height, *src, buffer_len) is None
                    &&& bytes@.len() == packed_len(*src)
                    &&& forall|row: int, column: int|
                        self.has(row, column) && covers(*src, row, column)
                            ==> bytes@[packed_at(*src, row, column)] == #[trigger] self.byte(
                            row,
                            column,
                        )
                },
                Err(error) => refusal(self.width, self.height, *src, buffer_len) == Some(error@),
            },
    {
        let (stride, row_bytes, start) = match self.check_rect(src) {
            Ok(geometry) => geometry,
            Err(error) => return Err(error),
        };
        match check_buffer(src, buffer_len) {
            Ok(_) => {},
            Err(error) => return Err(error),
        }
        let mut out: Vec<u8> = Vec::new();
        let mut row: usize = 0;
        assert(0 * row_bytes == 0) by (nonlinear_arith);
        while row < src.height as usize
            invariant
                row <= src.height,
                self.wf(),
                inside(self.width, self.height, *src),
                stride == self.stride(),
                row_bytes == 4 * src.width,
                start == place(self.stride(), src.y as int, 4 * src.x),
                out@.len() == row * row_bytes,
                forall|r: int, c: int|
                    self.has(r, c) && covers(*src, r, c) && r < src.y + row
                        ==> out@[packed_at(*src, r, c)] == #[trigger] self.byte(r, c),
            decreases src.height - row,
        {
            let mut k: usize = 0;
            while k < row_bytes
                invariant
                    k <= row_bytes,
                    row < src.height,
                    self.wf(),
                    inside(self.width, self.height, *src),
                    stride == self.stride(),
                    row_bytes == 4 * src.width,
                    start == place(self.stride(), src.y as int, 4 * src.x),
                    out@.len() == row * row_bytes + k,
                    forall|r: int, c: int|
                        self.has(r, c) && covers(*src, r, c) && (r < src.y + row || (r == src.y
                            + row && c < 4 * src.x + k)) ==> out@[packed_at(*src, r, c)]
                            == #[trigger] self.byte(r, c),
                decreases row_bytes - k,
            {
                let ghost at = (src.y + row, 4 * src.x + k);
                proof {
                    lemma_place_bounds(stride as int, self.height as int, at.0, at.1);
                    assert((src.y + row) * stride == src.y * stride + row * stride)
                        by (nonlinear_arith);
                    assert(self.height * stride <= 0x400_0000) by (nonlinear_arith)
                        requires
                            self.height <= 4096,
                            stride <= 16384,
                    ;
                    assert(row * stride >= 0) by (nonlinear_arith)
                        requires
                            row >= 0,
                            stride >= 0,
                    ;
                    assert(src.y * stride >= 0) by (nonlinear_arith)
                        requires
                            src.y >= 0,
                            stride >= 0,
                    ;
                }
                let from: usize = start + row * stride + k;
                let ghost before = out@;
                out.push(self.pixels[from]);
                proof {
                    assert(from == place(stride as int, at.0, at.1));
                    assert(packed_at(*src, at.0, at.1) == before.len());
                    assert forall|r: int, c: int|
                        self.has(r, c) && covers(*src, r, c) && (r < src.y + row || (r == src.y
                            + row && c < 4 * src.x + k + 1)) implies out@[packed_at(*src, r, c)]
                        == #[trigger] self.byte(r, c) by {
                        if r == at.0 && c == at.1 {
                        } else {
                            if r < at.0 {
                                lemma_place_bounds(
                                    row_bytes as int,
                                    row as int,
                                    r - src.y,
                                    c - 4 * src.x,
                                );
                            }
                            assert(0 <= (r - src.y) * row_bytes) by (nonlinear_arith)
                                requires
                                    r >= src.y,
                                    row_bytes >= 0,
                            ;
                            assert(before[packed_at(*src, r, c)] == self.byte(r, c));
                        }
                    }
                }
                k = k + 1;
            }
            assert((row + 1) * row_bytes == row * row_bytes + row_bytes) by (nonlinear_arith);
            row = row + 1;
        }
        assert(src.height * row_bytes == packed_len(*src)) by (nonlinear_arith)
            requires
                row_bytes == 4 * src.width,
                packed_len(*src) == src.width * src.height * 4,
        ;
        Ok(out)
    }

    /// Fill a rectangle with one colour.
    pub fn clear(&mut self, dst: &Rect, color: u32) -> (result: Result<(), GfxError>)
        requires
            old(self).wf(),
        ensures
            final(self).wf(),
            final(self).width == old(self).width,
            final(self).height == old(self).height,
            match result {
                Ok(_) => {
                    &&& inside(old(self).width, old(self).height, *dst)
                    &&& forall|row: int, column: int|
                        old(self).has(row, column) ==> #[trigger] final(self).byte(row, column)
                            == if covers(*dst, row, column) {
                            le32(color)[column % 4]
                        } else {
                            old(self).byte(row, column)
                        }
                },
                Err(error) => {
                    &&& error is OutOfBounds && !inside(old(self).width, old(self).height, *dst)
                    &&& *final(self) == *old(self)
                },
            },
    {
        let (stride, row_bytes, start) = match self.check_rect(dst) {
            Ok(geometry) => geometry,
            Err(error) => return Err(error),
        };
        proof {
            lemma_inside_area(self.width, self.height, *dst);
            assert(self.width * self.height <= 0x100_0000) by (nonlinear_arith)
                requires
                    self.width <= 4096,
                    self.height <= 4096,
            ;
            assert(dst.width * dst.height >= 0) by (nonlinear_arith);
        }
        let pixels: usize = dst.width as usize * dst.height as usize;
        let mut solid: Vec<u8> = Vec::new();
        let mut done: usize = 0;
        while done < pixels
            invariant
                done <= pixels,
                solid@.len() == 4 * done,
                forall|i: int| 0 <= i < solid@.len() ==> solid@[i] == le32(color)[i % 4],
            decreases pixels - done,
        {
            push_le32(&mut solid, color);
            done = done + 1;
        }
        self.paint(dst, &solid, stride, row_bytes, start);
        proof {
            assert forall|row: int, column: int|
                old(self).has(row, column) && covers(*dst, row, column) implies #[trigger] self.byte(
                row,
                column,
            ) == le32(color)[column % 4] by {
                let from = packed_at(*dst, row, column);
                lemma_place_bounds(
                    row_bytes as int,
                    dst.height as int,
                    row - dst.y,
                    column - 4 * dst.x,
                );
                assert(dst.height * row_bytes == packed_len(*dst)) by (nonlinear_arith)
                    requires
                        row_bytes == 4 * dst.width,
                        packed_len(*dst) == dst.width * dst.height * 4,
                ;
                let quads = (row - dst.y) * dst.width;
                assert((row - dst.y) * (4 * dst.width) == 4 * quads) by (nonlinear_arith)
                    requires
                        quads == (row - dst.y) * dst.width,
                ;
                assert(from % 4 == column % 4);
            }
        }
        Ok(())
    }
}

/// What was presented is what is read back.
pub proof fn law_read_after_present(
    before: Framebuffer,
    after: Framebuffer,
    rect: Rect,
    shown: Seq<u8>,
    seen: Seq<u8>,
)
    requires
        before.wf(),
        after.wf(),
        after.width == before.width,
        after.height == before.height,
        inside(before.width, before.height, rect),
        shown.len() == packed_len(rect),
        seen.len() == packed_len(rect),
        forall|row: int, column: int|
            before.has(row, column) ==> #[trigger] after.byte(row, column) == if covers(
                rect,
                row,
                column,
            ) {
                shown[packed_at(rect, row, column)]
            } else {
                before.byte(row, column)
            },
        forall|row: int, column: int|
            after.has(row, column) && covers(rect, row, column) ==> seen[packed_at(
                rect,
                row,
                column,
            )] == #[trigger] after.byte(row, column),
    ensures
        seen == shown,
{
    assert forall|i: int| 0 <= i < seen.len() implies seen[i] == shown[i] by {
        let row_bytes = 4 * rect.width;
        assert(rect.height * row_bytes == packed_len(rect)) by (nonlinear_arith)
            requires
                row_bytes == 4 * rect.width,
                packed_len(rect) == rect.width * rect.height * 4,
        ;
        assert(row_bytes > 0) by (nonlinear_arith)
            requires
                0 <= i < rect.height * row_bytes,
                row_bytes >= 0,
        ;
        let r = i / row_bytes;
        let c = i % row_bytes;
        vstd::arithmetic::div_mod::lemma_fundamental_div_mod(i, row_bytes);
        assert(row_bytes * r == r * row_bytes) by (nonlinear_arith);
        assert(0 <= r < rect.height) by (nonlinear_arith)
            requires
                0 <= i < rect.height * row_bytes,
                i == row_bytes * r + c,
                0 <= c < row_bytes,
        ;
        let row = rect.y + r;
        let column = 4 * rect.x + c;
        assert(after.has(row, column));
        assert(covers(rect, row, column));
        assert(packed_at(rect, row, column) == i);
        assert(after.byte(row, column) == shown[i]);
    }
    assert(seen =~= shown);
}

/// What presenting and clearing do, pixel by pixel: four bytes each, row by row, the pixels
/// of the rectangle come from the packed pixels at the same column and row within it, and
/// every other pixel stays.
pub proof fn law_pixels_are_where_they_belong(
    before: Framebuffer,
    after: Framebuffer,
    rect: Rect,
    shown: Seq<u8>,
    x: int,
    y: int,
    channel: int,
)
    requires
        before.wf(),
        after.wf(),
        after.width == before.width,
        after.height == before.height,
        forall|row: int, column: int|
            before.has(row, column) ==> #[trigger] after.byte(row, column) == if covers(
                rect,
                row,
                column,
            ) {
                shown[packed_at(rect, row, column)]
            } else {
                before.byte(row, column)
            },
        0 <= x < before.width,
        0 <= y < before.height,
        0 <= channel < 4,
    ensures
        ({
            let at = 4 * (y * before.width + x) + channel;
            after.pixels@[at] == if rect.x <= x < rect.x + rect.width && rect.y <= y < rect.y
                + rect.height {
                shown[4 * ((y - rect.y) * rect.width + (x - rect.x)) + channel]
            } else {
                before.pixels@[at]
            }
        }),
{
    let column = 4 * x + channel;
    assert(before.has(y, column));
    assert(after.byte(y, column) == after.pixels@[place(after.stride(), y, column)]);
    assert(y * (4 * before.width) == 4 * (y * before.width)) by (nonlinear_arith);
    let down = y - rect.y;
    assert(down * (4 * rect.width) == 4 * (down * rect.width)) by (nonlinear_arith);
}

/// What reading gives, pixel by pixel: the pixels of the rectangle, row by row.
pub proof fn law_read_gives_each_pixel(
    fb: Framebuffer,
    rect: Rect,
    seen: Seq<u8>,
    x: int,
    y: int,
    channel: int,
)
    requires
        fb.wf(),
        inside(fb.width, fb.height, rect),
        forall|row: int, column: int|
            fb.has(row, column) && covers(rect, row, column) ==> seen[packed_at(rect, row, column)]
                == #[trigger] fb.byte(row, column),
        0 <= x < rect.width,
        0 <= y < rect.height,
        0 <= channel < 4,
    ensures
        seen[4 * (y * rect.width + x) + channel] == fb.pixels@[4 * ((rect.y + y) * fb.width
            + (rect.x + x)) + channel],
{
    let (row, column) = (rect.y + y, 4 * (rect.x + x) + channel);
    assert(fb.has(row, column) && covers(rect, row, column));
    assert(fb.byte(row, column) == fb.pixels@[place(fb.stride(), row, column)]);
    assert(row * (4 * fb.width) == 4 * (row * fb.width)) by (nonlinear_arith);
    assert(y * (4 * rect.width) == 4 * (y * rect.width)) by (nonlinear_arith);
}

/// A cleared pixel has the colour: its four bytes make it up.
pub proof fn law_cleared_pixels_have_the_colour(
    before: Framebuffer,
    after: Framebuffer,
    rect: Rect,
    color: u32,
    x: int,
    y: int,
)
    requires
        before.wf(),
        after.wf(),
        after.width == before.width,
        after.height == before.height,
        inside(before.width, before.height, rect),
        forall|row: int, column: int|
            before.has(row, column) ==> #[trigger] after.byte(row, column) == if covers(
                rect,
                row,
                column,
            ) {
                le32(color)[column % 4]
            } else {
                before.byte(row, column)
            },
        rect.x <= x < rect.x + rect.width,
        rect.y <= y < rect.y + rect.height,
    ensures
        dword_le(after.pixels@, 4 * (y * before.width + x)) == color,
{
    let at = 4 * (y * before.width + x);
    assert(y * (4 * before.width) == 4 * (y * before.width)) by (nonlinear_arith);
    assert forall|channel: int| 0 <= channel < 4 implies #[trigger] after.pixels@[at + channel]
        == le32(color)[channel] by {
        let column = 4 * x + channel;
        assert(before.has(y, column) && covers(rect, y, column));
        assert(after.byte(y, column) == after.pixels@[place(after.stride(), y, column)]);
        assert(column % 4 == channel);
    }
    lemma_place_bounds(before.stride(), before.height as int, y, 4 * x + 3);
    assert(0 <= y * before.width) by (nonlinear_arith)
        requires
            0 <= y,
            before.width >= 0,
    ;
    let part = after.pixels@.subrange(at, at + 4);
    assert(le32(color).len() == 4);
    assert forall|channel: int| 0 <= channel < 4 implies #[trigger] part[channel] == le32(
        color,
    )[channel] by {
        assert(part[channel] == after.pixels@[at + channel]);
    }
    assert(part =~= le32(color));
    law_le32_is_found(after.pixels@, at, color);
}

} // verus!
