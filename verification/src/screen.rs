//! The frame buffer and the texture atlases, and how a texel becomes a pixel.

use vstd::prelude::*;
use crate::fixed::{Fixed, floor_div, fx_add, fx_mul, lemma_product_bound, prod, sum, HALF, ONE};
use crate::slice::{changed_within, pixel_start, with_pixel};

verus! {

/// How much of the light of the dungeon red takes: one and a half.
pub const SHADE_RED: Fixed = 98304;

/// How much of the light of the dungeon green takes: eleven tenths.
pub const SHADE_GREEN: Fixed = 72090;

/// How much of the light of the dungeon blue takes: six tenths.
pub const SHADE_BLUE: Fixed = 39322;

/// How much of the light of the player's lamp red takes: all.
pub const FLASH_RED: Fixed = 65536;

/// How much of the light of the player's lamp green takes: nine tenths.
pub const FLASH_GREEN: Fixed = 58982;

/// How much of the light of the player's lamp blue takes: eight tenths.
pub const FLASH_BLUE: Fixed = 52429;

/// The frame buffer, column by column, and the two atlases: that of the walls
/// and floors, in rows of `length_textures` texels, and that of the sprites,
/// in rows of `length_sprites` texels. A pixel and a texel are four bytes:
/// red, green, blue and opacity.
pub struct Screen {
    pub img_arr: Vec<u8>,
    pub img_arr_len: usize,
    pub width: usize,
    pub height: usize,
    pub wall_textures: Vec<u8>,
    pub sprite_textures: Vec<u8>,
    pub length_textures: usize,
    pub length_sprites: usize,
}

/// The channel `texel` lit by `light`: their product rounded to the nearest
/// whole, kept within a byte.
pub open spec fn lit(texel: u8, light: Fixed) -> u8 {
    let v = (texel * light + HALF) / (ONE as int);
    if v < 0 {
        0u8
    } else if v > 255 {
        255u8
    } else {
        v as u8
    }
}

/// The light on a channel that takes `of_shade` of the light `shade` of the
/// dungeon and `of_flash` of the light `flashlight` of the lamp.
pub open spec fn light_on(of_shade: Fixed, shade: Fixed, of_flash: Fixed, flashlight: Fixed) -> Fixed {
    sum(prod(of_shade, shade), prod(flashlight, of_flash))
}

/// The pixel that a texel gives in the light `shade` of the dungeon and the
/// light `flashlight` of the lamp; it is opaque.
pub open spec fn blend(texel: Seq<u8>, shade: Fixed, flashlight: Fixed) -> Seq<u8> {
    seq![
        lit(texel[0], light_on(SHADE_RED, shade, FLASH_RED, flashlight)),
        lit(texel[1], light_on(SHADE_GREEN, shade, FLASH_GREEN, flashlight)),
        lit(texel[2], light_on(SHADE_BLUE, shade, FLASH_BLUE, flashlight)),
        255u8,
    ]
}

/// The pixel that a sprite's texel gives in the light `shade`: the texel
/// itself in full light and where it is pure red, else each colour times the
/// light, rounded down and kept within a byte.
pub open spec fn shaded(texel: Seq<u8>, shade: Fixed) -> Seq<u8> {
    if shade != ONE && !(texel[0] == 255 && texel[1] == 0 && texel[2] == 0 && texel[3] == 255) {
        seq![dimmed(texel[0], shade), dimmed(texel[1], shade), dimmed(texel[2], shade), texel[3]]
    } else {
        seq![texel[0], texel[1], texel[2], texel[3]]
    }
}

/// A colour times a light, rounded down and kept within a byte.
pub open spec fn dimmed(texel: u8, shade: Fixed) -> u8 {
    let v = (texel * shade) / (ONE as int);
    if v < 0 {
        0u8
    } else if v > 255 {
        255u8
    } else {
        v as u8
    }
}

/// Where the texel (`x`, `y`) starts in an atlas with rows of `length`
/// texels.
pub open spec fn texel_start(length: usize, x: usize, y: usize) -> int {
    (y * length + x) * 4
}

/// The channel `texel` lit by `light`.
pub fn light_channel(texel: u8, light: Fixed) -> (c: u8)
    ensures
        c == lit(texel, light),
{
    proof {
        lemma_product_bound(texel as int, light as int, 0x8000_0000_0000_0000);
        assert(0x8000_0000_0000_0000int * 0x8000_0000_0000_0000int
            == 0x4000_0000_0000_0000_0000_0000_0000_0000int) by (nonlinear_arith);
    }
    let v: i128 = floor_div((texel as i128) * (light as i128) + 32768, 65536);
    if v < 0 {
        0
    } else if v > 255 {
        255
    } else {
        v as u8
    }
}

/// A colour times a light, rounded down and kept within a byte.
pub fn dim_channel(texel: u8, shade: Fixed) -> (c: u8)
    ensures
        c == dimmed(texel, shade),
{
    proof {
        lemma_product_bound(texel as int, shade as int, 0x8000_0000_0000_0000);
        assert(0x8000_0000_0000_0000int * 0x8000_0000_0000_0000int
            == 0x4000_0000_0000_0000_0000_0000_0000_0000int) by (nonlinear_arith);
    }
    let v: i128 = floor_div((texel as i128) * (shade as i128), 65536);
    if v < 0 {
        0
    } else if v > 255 {
        255
    } else {
        v as u8
    }
}

/// The pixel that the four bytes of `pixel` give in the light `shade` of the
/// dungeon and the light `flashlight` of the lamp.
pub fn color_pixel(pixel: &[u8], shade: Fixed, flashlight: Fixed) -> (p: [u8; 4])
    requires
        pixel@.len() >= 4,
    ensures
        p@ == blend(pixel@, shade, flashlight),
{
    let red: Fixed = fx_add(fx_mul(SHADE_RED, shade), fx_mul(flashlight, FLASH_RED));
    let green: Fixed = fx_add(fx_mul(SHADE_GREEN, shade), fx_mul(flashlight, FLASH_GREEN));
    let blue: Fixed = fx_add(fx_mul(SHADE_BLUE, shade), fx_mul(flashlight, FLASH_BLUE));
    let p: [u8; 4] = [
        light_channel(pixel[0], red),
        light_channel(pixel[1], green),
        light_channel(pixel[2], blue),
        255,
    ];
    assert(p@ =~= blend(pixel@, shade, flashlight));
    p
}

impl Screen {
    /// The texel of the wall atlas at (`x`, `y`), if the atlas has it.
    pub open spec fn wall_texel(self, x: usize, y: usize) -> Option<Seq<u8>> {
        let at = texel_start(self.length_textures, x, y);
        if at + 4 <= self.wall_textures@.len() {
            Some(self.wall_textures@.subrange(at, at + 4))
        } else {
            None
        }
    }

    /// The texel of the sprite atlas at (`x`, `y`), if the atlas has it.
    pub open spec fn sprite_texel(self, x: usize, y: usize) -> Option<Seq<u8>> {
        let at = texel_start(self.length_sprites, x, y);
        if at + 4 <= self.sprite_textures@.len() {
            Some(self.sprite_textures@.subrange(at, at + 4))
        } else {
            None
        }
    }

    /// The column `slice` with the wall texel at `texture_position` drawn at
    /// the height `pixel_height` in the given light. Nothing is drawn of a
    /// texel that the atlas lacks, nor beyond the column.
    pub open spec fn with_texture(
        self,
        slice: Seq<u8>,
        texture_position: (usize, usize),
        pixel_height: usize,
        shade: Fixed,
        flashlight: Fixed,
    ) -> Seq<u8> {
        match self.wall_texel(texture_position.0, texture_position.1) {
            Some(texel) => if 4 * pixel_height + 4 <= slice.len() {
                with_pixel(slice, 4 * pixel_height, blend(texel, shade, flashlight))
            } else {
                slice
            },
            None => slice,
        }
    }

    /// As [`Self::with_texture`], but nothing is drawn of a texel that is not
    /// opaque.
    pub open spec fn with_transparent_texture(
        self,
        slice: Seq<u8>,
        texture_position: (usize, usize),
        pixel_height: usize,
        shade: Fixed,
        flashlight: Fixed,
    ) -> Seq<u8> {
        match self.wall_texel(texture_position.0, texture_position.1) {
            Some(texel) => if texel[3] == 255 {
                self.with_texture(slice, texture_position, pixel_height, shade, flashlight)
            } else {
                slice
            },
            None => slice,
        }
    }

    /// The column `slice` with the sprite texel at `texture_position` drawn
    /// at the height `pixel_height` in the light `shade`, if the texel is
    /// opaque.
    pub open spec fn with_sprite(
        self,
        slice: Seq<u8>,
        texture_position: (usize, usize),
        pixel_height: usize,
        shade: Fixed,
    ) -> Seq<u8> {
        match self.sprite_texel(texture_position.0, texture_position.1) {
            Some(texel) => if texel[3] == 255 && 4 * pixel_height + 4 <= slice.len() {
                with_pixel(slice, 4 * pixel_height, shaded(texel, shade))
            } else {
                slice
            },
            None => slice,
        }
    }

    /// A black screen of `width` by `height` pixels, without textures yet.
    pub fn new(width: usize, height: usize, length_textures: usize, length_sprites: usize) -> (s:
        Self)
        requires
            width * height * 4 <= usize::MAX,
        ensures
            s.width == width,
            s.height == height,
            s.length_textures == length_textures,
            s.length_sprites == length_sprites,
            s.img_arr@ == Seq::new((width * height * 4) as nat, |i: int| 0u8),
            s.img_arr_len == width * height * 4,
            s.wall_textures@.len() == 0,
            s.sprite_textures@.len() == 0,
    {
        let img_arr = black(width, height);
        let img_arr_len = img_arr.len();
        Self {
            img_arr,
            img_arr_len,
            width,
            height,
            wall_textures: Vec::new(),
            sprite_textures: Vec::new(),
            length_textures,
            length_sprites,
        }
    }

    /// Takes the two atlases.
    pub fn textures(&mut self, wall_textures: Vec<u8>, sprite_textures: Vec<u8>)
        ensures
            *final(self) == (Screen { wall_textures, sprite_textures, ..*old(self) }),
    {
        self.wall_textures = wall_textures;
        self.sprite_textures = sprite_textures;
    }

    /// Makes the screen black.
    pub fn reset_img(&mut self)
        requires
            old(self).width * old(self).height * 4 <= usize::MAX,
        ensures
            final(self).img_arr@ == Seq::new(
                (old(self).width * old(self).height * 4) as nat,
                |i: int| 0u8,
            ),
            final(self).width == old(self).width,
            final(self).height == old(self).height,
            final(self).img_arr_len == old(self).img_arr_len,
            final(self).wall_textures == old(self).wall_textures,
            final(self).sprite_textures == old(self).sprite_textures,
            final(self).length_textures == old(self).length_textures,
            final(self).length_sprites == old(self).length_sprites,
    {
        self.img_arr = black(self.width, self.height);
    }

    /// Draws the wall texel at `texture_position` into the column `slice` at
    /// the height `pixel_height`.
    pub fn draw_texture(
        &self,
        slice: &mut [u8],
        texture_position: [usize; 2],
        pixel_height: usize,
        shade: Fixed,
        flashlight: Fixed,
    )
        ensures
            final(slice)@ == self.with_texture(
                old(slice)@,
                (texture_position[0], texture_position[1]),
                pixel_height,
                shade,
                flashlight,
            ),
    {
        let len: usize = slice.len();
        let atlas: usize = self.wall_textures.len();
        let pos: usize = match pixel_start(
            self.length_textures,
            texture_position[0],
            texture_position[1],
        ) {
            Some(p) => p,
            None => {
                return ;
            },
        };
        if pos + 4 > atlas || pixel_height > (usize::MAX - 4) / 4 || 4 * pixel_height + 4 > len {
            return ;
        }
        let ghost texel = self.wall_textures@.subrange(pos as int, pos + 4);
        let p: [u8; 4] = color_pixel(
            slice_of(&self.wall_textures, pos),
            shade,
            flashlight,
        );
        let at: usize = 4 * pixel_height;
        slice[at] = p[0];
        slice[at + 1] = p[1];
        slice[at + 2] = p[2];
        slice[at + 3] = p[3];
        assert(slice@ =~= with_pixel(old(slice)@, at as int, p@));
    }

    /// Draws the wall texel at `texture_position` into the column `slice` at
    /// the height `pixel_height`, if the texel is opaque.
    pub fn draw_transparent_texture(
        &self,
        slice: &mut [u8],
        texture_position: [usize; 2],
        pixel_height: usize,
        shade: Fixed,
        flashlight: Fixed,
    )
        ensures
            final(slice)@ == self.with_transparent_texture(
                old(slice)@,
                (texture_position[0], texture_position[1]),
                pixel_height,
                shade,
                flashlight,
            ),
    {
        let atlas: usize = self.wall_textures.len();
        let pos: usize = match pixel_start(
            self.length_textures,
            texture_position[0],
            texture_position[1],
        ) {
            Some(p) => p,
            None => {
                return ;
            },
        };
        if pos + 4 > atlas {
            return ;
        }
        if self.wall_textures[pos + 3] == 255 {
            self.draw_texture(slice, texture_position, pixel_height, shade, flashlight);
        }
    }

    /// Draws the sprite texel at `texture_position` into the column `slice`
    /// at the height `pixel_height`, if the texel is opaque.
    pub fn draw_sprite(
        &self,
        slice: &mut [u8],
        texture_position: [usize; 2],
        pixel_height: usize,
        shade: Fixed,
    )
        ensures
            final(slice)@ == self.with_sprite(
                old(slice)@,
                (texture_position[0], texture_position[1]),
                pixel_height,
                shade,
            ),
    {
        let len: usize = slice.len();
        let atlas: usize = self.sprite_textures.len();
        let pos: usize = match pixel_start(
            self.length_sprites,
            texture_position[0],
            texture_position[1],
        ) {
            Some(p) => p,
            None => {
                return ;
            },
        };
        if pos + 4 > atlas || pixel_height > (usize::MAX - 4) / 4 || 4 * pixel_height + 4 > len {
            return ;
        }
        let ghost texel = self.sprite_textures@.subrange(pos as int, pos + 4);
        let mut pixel: [u8; 4] = [
            self.sprite_textures[pos],
            self.sprite_textures[pos + 1],
            self.sprite_textures[pos + 2],
            self.sprite_textures[pos + 3],
        ];
        assert(texel[0] == pixel[0] && texel[1] == pixel[1] && texel[2] == pixel[2] && texel[3]
            == pixel[3]);
        if pixel[3] == 255 {
            if shade != ONE && !(pixel[0] == 255 && pixel[1] == 0 && pixel[2] == 0) {
                pixel = [
                    dim_channel(pixel[0], shade),
                    dim_channel(pixel[1], shade),
                    dim_channel(pixel[2], shade),
                    pixel[3],
                ];
            }
            assert(pixel@ =~= shaded(texel, shade));
            let at: usize = 4 * pixel_height;
            slice[at] = pixel[0];
            slice[at + 1] = pixel[1];
            slice[at + 2] = pixel[2];
            slice[at + 3] = pixel[3];
            assert(slice@ =~= with_pixel(old(slice)@, at as int, pixel@));
        }
    }
}

/// The four bytes of `atlas` from `pos` on.
fn slice_of(atlas: &Vec<u8>, pos: usize) -> (texel: &[u8])
    requires
        pos + 4 <= atlas@.len(),
    ensures
        texel@ == atlas@.subrange(pos as int, pos + 4),
{
    let len: usize = atlas.len();
    vstd::slice::slice_subrange(atlas.as_slice(), pos, pos + 4)
}

/// A black picture of `width` by `height` pixels.
fn black(width: usize, height: usize) -> (picture: Vec<u8>)
    requires
        width * height * 4 <= usize::MAX,
    ensures
        picture@ == Seq::new((width * height * 4) as nat, |i: int| 0u8),
{
    assert(width * height <= width * height * 4) by (nonlinear_arith)
        requires
            width * height >= 0,
    ;
    let bytes: usize = width * height * 4;
    let mut picture: Vec<u8> = Vec::new();
    let mut i: usize = 0;
    while i < bytes
        invariant
            i <= bytes,
            picture@.len() == i,
            forall|j: int| 0 <= j < i ==> picture@[j] == 0,
        decreases bytes - i,
    {
        picture.push(0);
        i += 1;
    }
    assert(picture@ =~= Seq::new((width * height * 4) as nat, |i: int| 0u8));
    picture
}

/// Whatever a screen draws at the height `pixel_height` of a column changes
/// the four bytes of that pixel and nothing else.
pub proof fn lemma_screen_draws_one_pixel(
    screen: Screen,
    slice: Seq<u8>,
    texture_position: (usize, usize),
    pixel_height: usize,
    shade: Fixed,
    flashlight: Fixed,
)
    ensures
        changed_within(
            slice,
            screen.with_texture(slice, texture_position, pixel_height, shade, flashlight),
            4 * pixel_height,
            4 * pixel_height + 4,
        ),
        changed_within(
            slice,
            screen.with_transparent_texture(
                slice,
                texture_position,
                pixel_height,
                shade,
                flashlight,
            ),
            4 * pixel_height,
            4 * pixel_height + 4,
        ),
        changed_within(
            slice,
            screen.with_sprite(slice, texture_position, pixel_height, shade),
            4 * pixel_height,
            4 * pixel_height + 4,
        ),
{
}

} // verus!
