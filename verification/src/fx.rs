//! A screen effect that dithers every pixel drawn: on a checkerboard that
//! flips with every step, pixels are alternately darkened and brightened.
use vstd::prelude::*;
use core::marker::PhantomData;
use embedded_graphics::pixelcolor::{Rgb565, RgbColor};

verus! {

#[verifier::external_type_specification]
#[verifier::external_body]
pub struct ExRgb565(embedded_graphics::pixelcolor::Rgb565);

/// The red, green and blue channels of a colour (5, 6 and 5 bits).
pub uninterp spec fn rgb565_channels(c: Rgb565) -> (u8, u8, u8);

/// `Rgb565::new`: each channel is masked to its width.
#[verifier::external_body]
pub(crate) fn rgb565_new(r: u8, g: u8, b: u8) -> (c: Rgb565)
    ensures
        rgb565_channels(c) == (r & 31u8, g & 63u8, b & 31u8),
{
    Rgb565::new(r, g, b)
}

/// `RgbColor::r`, `g` and `b` of an `Rgb565`.
#[verifier::external_body]
pub(crate) fn rgb565_split(c: Rgb565) -> (ch: (u8, u8, u8))
    ensures
        ch == rgb565_channels(c),
        ch.0 <= 31,
        ch.1 <= 63,
        ch.2 <= 31,
{
    (c.r(), c.g(), c.b())
}

/// Step of the effect: 50 on a 0 to 255 scale in each channel.
pub const FX_DELTA_R: u8 = 6;
pub const FX_DELTA_G: u8 = 12;
pub const FX_DELTA_B: u8 = 6;

/// The effect's animation counter.
#[derive(Copy, Clone)]
pub struct FXParams {
    t: u32,
}

impl Default for FXParams {
    fn default() -> (p: Self)
        ensures
            p.time() == 0,
    {
        FXParams { t: 0 }
    }
}

impl FXParams {
    pub closed spec fn time(&self) -> u32 {
        self.t
    }

    /// Advances the animation by one step.
    pub fn step(&mut self)
        requires
            old(self).time() < u32::MAX,
        ensures
            final(self).time() == old(self).time() + 1,
    {
        self.t = self.t + 1;
    }

    pub fn t(&self) -> (t: u32)
        ensures
            t == self.time(),
    {
        self.t
    }
}

/// Whether a coordinate has remainder 1 when divided by 2 (negative
/// coordinates never do).
pub open spec fn odd_coord(v: i32) -> bool {
    v >= 0 && v % 2 == 1
}

/// Whether a pixel is darkened: the parity of its column, its row and the
/// animation step, combined by exclusive or.
pub open spec fn darkens(x: i32, y: i32, t: u32) -> bool {
    odd_coord(x) ^ odd_coord(y) ^ (t % 2 == 1)
}

pub open spec fn sat_sub(a: u8, b: u8) -> u8 {
    if a >= b { (a - b) as u8 } else { 0 }
}

pub open spec fn capped_add(a: u8, b: u8, max: u8) -> u8 {
    if a + b <= max { (a + b) as u8 } else { max }
}

/// The colour that the effect turns `c` at `(x, y)` into.
pub open spec fn fx_color(x: i32, y: i32, c: (u8, u8, u8), t: u32) -> (u8, u8, u8) {
    if darkens(x, y, t) {
        (sat_sub(c.0, FX_DELTA_R), sat_sub(c.1, FX_DELTA_G), sat_sub(c.2, FX_DELTA_B))
    } else {
        (capped_add(c.0, FX_DELTA_R, 31), capped_add(c.1, FX_DELTA_G, 63), capped_add(c.2, FX_DELTA_B, 31))
    }
}

fn is_odd_coord(v: i32) -> (b: bool)
    ensures
        b == odd_coord(v),
{
    v >= 0 && (v as u32) % 2 == 1
}

/// A draw target seen through the dithering effect.
pub struct FX<'a, DT, E> {
    target: &'a mut DT,
    params: FXParams,
    _p: PhantomData<E>,
}

impl<'a, DT, E> FX<'a, DT, E> {
    pub closed spec fn params_of(&self) -> FXParams {
        self.params
    }

    pub fn new(target: &'a mut DT, params: FXParams) -> (fx: Self)
        ensures
            fx.params_of() == params,
            fx.target_of() == *old(target),
    {
        FX { target, params, _p: PhantomData }
    }

    /// The draw target behind the effect, to draw on without the effect:
    /// what is written through it becomes the effect's target, and the
    /// effect's animation step stays as it was.
    pub fn inner(&mut self) -> (t: &mut DT)
        ensures
            *t == old(self).target_of(),
            final(self).target_of() == *final(t),
            final(self).params_of() == old(self).params_of(),
    {
        self.target
    }

    /// The draw target behind the effect.
    pub closed spec fn target_of(&self) -> DT {
        *self.target
    }

    /// The draw target behind the effect, for reading only.
    pub fn target(&self) -> (t: &DT)
        ensures
            *t == self.target_of(),
    {
        &*self.target
    }

    /// The effect's current animation counter.
    pub fn params(&self) -> (p: FXParams)
        ensures
            p == self.params_of(),
    {
        self.params
    }

    /// The colour that the effect turns `color` at `(x, y)` into.
    pub fn map_pixel(x: i32, y: i32, color: Rgb565, params: FXParams) -> (c: Rgb565)
        ensures
            rgb565_channels(c) == fx_color(x, y, rgb565_channels(color), params.time()),
    {
        let is_odd = is_odd_coord(x) ^ is_odd_coord(y) ^ (params.t % 2 == 1);
        let (r, g, b) = rgb565_split(color);
        let (nr, ng, nb) = if is_odd {
            (r.saturating_sub(FX_DELTA_R), g.saturating_sub(FX_DELTA_G), b.saturating_sub(FX_DELTA_B))
        } else {
            (
                if r + FX_DELTA_R <= 31 { r + FX_DELTA_R } else { 31 },
                if g + FX_DELTA_G <= 63 { g + FX_DELTA_G } else { 63 },
                if b + FX_DELTA_B <= 31 { b + FX_DELTA_B } else { 31 },
            )
        };
        assert(nr <= 31 && ng <= 63 && nb <= 31);
        assert(nr & 31u8 == nr) by (bit_vector)
            requires
                nr <= 31u8,
        ;
        assert(ng & 63u8 == ng) by (bit_vector)
            requires
                ng <= 63u8,
        ;
        assert(nb & 31u8 == nb) by (bit_vector)
            requires
                nb <= 31u8,
        ;
        rgb565_new(nr, ng, nb)
    }

    /// Advances the effect's animation by one step.
    pub fn step_params(&mut self)
        requires
            old(self).params_of().time() < u32::MAX,
        ensures
            final(self).params_of().time() == old(self).params_of().time() + 1,
            final(self).target_of() == old(self).target_of(),
    {
        self.params.step();
    }
}

} // verus!
