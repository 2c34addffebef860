//! A plain pixel buffer with one texture, drawn into without lighting.

use vstd::prelude::*;
use crate::fixed::Fixed;
use crate::screen::{dim_channel, shaded};

verus! {

/// A drawing surface of `width` by `height` pixels and the texture drawn on it.
pub struct Slice {
    pub width: usize,
    pub height: usize,
    pub texture: Vec<u8>,
}

/// `buffer` with the four bytes from `at` on replaced by `pixel`.
pub open spec fn with_pixel(buffer: Seq<u8>, at: int, pixel: Seq<u8>) -> Seq<u8> {
    Seq::new(
        buffer.len(),
        |i: int|
            if at <= i < at + 4 {
                pixel[i - at]
            } else {
                buffer[i]
            },
    )
}

/// The byte at which the pixel (`x`, `y`) starts where a row holds `width`
/// pixels, if its four bytes end within the range of `usize`.
pub fn pixel_start(width: usize, x: usize, y: usize) -> (start: Option<usize>)
    ensures
        start is Some <==> (y * width + x) * 4 + 4 <= usize::MAX,
        start matches Some(at) ==> at == (y * width + x) * 4,
{
    let row: usize = match y.checked_mul(width) {
        Some(r) => r,
        None => {
            return None;
        },
    };
    let index: usize = match row.checked_add(x) {
        Some(i) => i,
        None => {
            return None;
        },
    };
    let at: usize = match index.checked_mul(4) {
        Some(a) => a,
        None => {
            return None;
        },
    };
    if at > usize::MAX - 4 {
        None
    } else {
        Some(at)
    }
}

impl Slice {
    /// A surface of `width` by `height` pixels with a copy of `texture`.
    pub fn new(width: usize, height: usize, texture: &[u8]) -> (s: Self)
        ensures
            s.width == width,
            s.height == height,
            s.texture@ == texture@,
    {
        let mut copy: Vec<u8> = Vec::new();
        let mut i: usize = 0;
        while i < texture.len()
            invariant
                i <= texture@.len(),
                copy@ == texture@.subrange(0, i as int),
            decreases texture@.len() - i,
        {
            copy.push(texture[i]);
            assert(copy@ =~= texture@.subrange(0, i + 1));
            i += 1;
        }
        assert(texture@.subrange(0, texture@.len() as int) =~= texture@);
        Self { width, height, texture: copy }
    }

    /// The texel at `texture_position` of the texture, in rows of `length`
    /// texels, if the texture has it.
    pub open spec fn texel(self, texture_position: (usize, usize), length: usize) -> Option<Seq<u8>> {
        let at = (texture_position.1 * length + texture_position.0) * 4;
        if at + 4 <= self.texture@.len() {
            Some(self.texture@.subrange(at, at + 4))
        } else {
            None
        }
    }

    /// The buffer `buffer` with `pixel` drawn at `count` places in a row,
    /// from (`x`, `y`) on.
    pub open spec fn with_run(self, buffer: Seq<u8>, x: usize, y: usize, pixel: Seq<u8>, count: int) -> Seq<u8>
        decreases count,
    {
        if count <= 0 {
            buffer
        } else {
            let before = self.with_run(buffer, x, y, pixel, count - 1);
            let at = self.offset(x + count - 1, y as int);
            if at + 4 <= before.len() {
                with_pixel(before, at, pixel)
            } else {
                before
            }
        }
    }

    /// The buffer `buffer` with the texel at `texture_position` drawn
    /// `width_rect` times in a row from `pixel_position` on, in the light
    /// `shade`, if the texture has the texel and it is opaque.
    pub open spec fn with_texture(
        self,
        buffer: Seq<u8>,
        texture_position: (usize, usize),
        pixel_position: (usize, usize),
        width_rect: usize,
        shade: Fixed,
        length: usize,
    ) -> Seq<u8> {
        match self.texel(texture_position, length) {
            Some(texel) => if texel[3] == 255 {
                self.with_run(
                    buffer,
                    pixel_position.0,
                    pixel_position.1,
                    shaded(texel, shade),
                    width_rect as int,
                )
            } else {
                buffer
            },
            None => buffer,
        }
    }

    /// Draws the texel at `texture_position` of the texture, in rows of
    /// `length` texels, `width_rect` times in a row from `pixel_position` on,
    /// in the light `shade`.
    pub fn draw_texture(
        &self,
        slice_v: &mut [u8],
        texture_position: [usize; 2],
        pixel_position: [usize; 2],
        width_rect: usize,
        shade: Fixed,
        length: usize,
    )
        ensures
            final(slice_v)@ == self.with_texture(
                old(slice_v)@,
                (texture_position[0], texture_position[1]),
                (pixel_position[0], pixel_position[1]),
                width_rect,
                shade,
                length,
            ),
    {
        let size: usize = self.texture.len();
        let pos: usize = match pixel_start(length, texture_position[0], texture_position[1]) {
            Some(p) => p,
            None => {
                return ;
            },
        };
        if pos + 4 > size {
            return ;
        }
        let ghost texel = self.texture@.subrange(pos as int, pos + 4);
        let mut pixel: [u8; 4] = [
            self.texture[pos],
            self.texture[pos + 1],
            self.texture[pos + 2],
            self.texture[pos + 3],
        ];
        assert(texel[0] == pixel[0] && texel[1] == pixel[1] && texel[2] == pixel[2] && texel[3]
            == pixel[3]);
        if pixel[3] != 255 {
            return ;
        }
        if shade != 65536 && !(pixel[0] == 255 && pixel[1] == 0 && pixel[2] == 0) {
            pixel = [
                dim_channel(pixel[0], shade),
                dim_channel(pixel[1], shade),
                dim_channel(pixel[2], shade),
                pixel[3],
            ];
        }
        assert(pixel@ =~= shaded(texel, shade));
        let mut i: usize = 0;
        while i < width_rect
            invariant
                i <= width_rect,
                slice_v@ == self.with_run(
                    old(slice_v)@,
                    pixel_position[0],
                    pixel_position[1],
                    pixel@,
                    i as int,
                ),
            decreases width_rect - i,
        {
            match pixel_position[0].checked_add(i) {
                Some(x) => {
                    self.draw_pixel(slice_v, x, pixel_position[1], &pixel);
                },
                None => {
                    let len: usize = slice_v.len();
                    assert(self.offset(pixel_position[0] + i, pixel_position[1] as int) + 4
                        > len) by (nonlinear_arith)
                        requires
                            pixel_position[0] + i > usize::MAX,
                            len <= usize::MAX,
                            pixel_position[1] * self.width >= 0,
                            self.offset(pixel_position[0] + i, pixel_position[1] as int) == (
                            pixel_position[1] * self.width + (pixel_position[0] + i)) * 4,
                    ;
                },
            }
            i += 1;
        }
    }

    /// The byte at which the pixel at (`x`, `y`) starts in a buffer of rows.
    pub open spec fn offset(self, x: int, y: int) -> int {
        (y * self.width + x) * 4
    }

    /// Writes `pixel` at (`position_x`, `position_y`). A pixel that does not
    /// lie within `slice_v` is not drawn.
    pub fn draw_pixel(&self, slice_v: &mut [u8], position_x: usize, position_y: usize, pixel: &[u8; 4])
        ensures
            final(slice_v)@ == (if self.offset(position_x as int, position_y as int) + 4 <= old(
                slice_v,
            )@.len() {
                with_pixel(old(slice_v)@, self.offset(position_x as int, position_y as int), pixel@)
            } else {
                old(slice_v)@
            }),
    {
        let len: usize = slice_v.len();
        match pixel_start(self.width, position_x, position_y) {
            Some(at) => {
                if at + 4 <= len {
                    slice_v[at] = pixel[0];
                    slice_v[at + 1] = pixel[1];
                    slice_v[at + 2] = pixel[2];
                    slice_v[at + 3] = pixel[3];
                    assert(slice_v@ =~= with_pixel(old(slice_v)@, at as int, pixel@));
                }
            },
            None => {},
        }
    }
}

/// Whether `after` is `before` with nothing changed but, at most, the bytes
/// from `from` up to `to`.
pub open spec fn changed_within(before: Seq<u8>, after: Seq<u8>, from: int, to: int) -> bool {
    &&& after.len() == before.len()
    &&& forall|i: int| 0 <= i < before.len() && !(from <= i < to) ==> after[i] == before[i]
}

/// A pixel that is drawn changes its own four bytes and nothing else.
pub proof fn lemma_with_pixel_changes_its_bytes(buffer: Seq<u8>, at: int, pixel: Seq<u8>)
    ensures
        changed_within(buffer, with_pixel(buffer, at, pixel), at, at + 4),
{
}

} // verus!
