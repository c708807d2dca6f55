use vstd::prelude::*;

verus! {

/// Fixed-point value of a brightness factor of 1.0: factors carry 24 fractional bits.
pub const SCALE_ONE: u32 = 16777216;

/// An 8-bit RGB color.
#[derive(Debug, Clone, Copy, PartialEq, Eq, Structural)]
pub struct Color {
    pub r: u8,
    pub g: u8,
    pub b: u8,
}

/// A factor clamped into `[0, SCALE_ONE]`.
pub open spec fn clamp_factor(factor: nat) -> nat {
    if factor > SCALE_ONE as nat {
        SCALE_ONE as nat
    } else {
        factor
    }
}

/// One channel multiplied by `factor / SCALE_ONE` (clamped), rounded toward zero.
pub open spec fn scale_channel(c: u8, factor: nat) -> nat {
    (c as nat * clamp_factor(factor)) / (SCALE_ONE as nat)
}

pub open spec fn scaled(c: Color, factor: nat) -> Color {
    Color {
        r: scale_channel(c.r, factor) as u8,
        g: scale_channel(c.g, factor) as u8,
        b: scale_channel(c.b, factor) as u8,
    }
}

/// The channels in the order the strip reads them: green, red, blue.
pub open spec fn wire_order(c: Color) -> Seq<u8> {
    seq![c.g, c.r, c.b]
}

pub open spec fn black_spec() -> Color {
    Color { r: 0, g: 0, b: 0 }
}

proof fn lemma_scale_channel_bounds(c: u8, factor: nat)
    ensures
        scale_channel(c, factor) <= c as nat,
{
    let f = clamp_factor(factor);
    let one = SCALE_ONE as nat;
    assert(c as nat * f <= c as nat * one) by (nonlinear_arith)
        requires
            f <= one,
    ;
    assert((c as nat * f) / one <= (c as nat * one) / one) by (nonlinear_arith)
        requires
            c as nat * f <= c as nat * one,
            one > 0,
    ;
    assert((c as nat * one) / one == c as nat) by (nonlinear_arith)
        requires
            one > 0,
    ;
}

impl Color {
    pub fn new(r: u8, g: u8, b: u8) -> (c: Self)
        ensures
            c == (Color { r, g, b }),
    {
        Color { r, g, b }
    }

    pub fn black() -> (c: Self)
        ensures
            c == black_spec(),
    {
        Self::new(0, 0, 0)
    }

    pub fn white() -> (c: Self)
        ensures
            c == (Color { r: 255, g: 255, b: 255 }),
    {
        Self::new(255, 255, 255)
    }

    pub fn red() -> (c: Self)
        ensures
            c == (Color { r: 255, g: 0, b: 0 }),
    {
        Self::new(255, 0, 0)
    }

    pub fn green() -> (c: Self)
        ensures
            c == (Color { r: 0, g: 255, b: 0 }),
    {
        Self::new(0, 255, 0)
    }

    pub fn blue() -> (c: Self)
        ensures
            c == (Color { r: 0, g: 0, b: 255 }),
    {
        Self::new(0, 0, 255)
    }

    fn scale_one_channel(c: u8, factor: u32) -> (r: u8)
        ensures
            r as nat == scale_channel(c, factor as nat),
    {
        proof {
            lemma_scale_channel_bounds(c, factor as nat);
        }
        let f: u64 = if factor > SCALE_ONE {
            SCALE_ONE as u64
        } else {
            factor as u64
        };
        assert(c as u64 * f <= 255 * (SCALE_ONE as u64)) by (nonlinear_arith)
            requires
                f <= SCALE_ONE as u64,
        ;
        let product: u64 = c as u64 * f;
        (product / (SCALE_ONE as u64)) as u8
    }

    /// Brightness scaling: each channel is multiplied by `factor / SCALE_ONE`
    /// and truncated; a factor above `SCALE_ONE` counts as `SCALE_ONE`.
    pub fn scale(&self, factor: u32) -> (c: Self)
        ensures
            c == scaled(*self, factor as nat),
    {
        Color {
            r: Self::scale_one_channel(self.r, factor),
            g: Self::scale_one_channel(self.g, factor),
            b: Self::scale_one_channel(self.b, factor),
        }
    }

    /// The channels in green-red-blue order, as the strip expects them.
    pub fn to_grb(&self) -> (w: [u8; 3])
        ensures
            w@ == wire_order(*self),
    {
        let w = [self.g, self.r, self.b];
        assert(w@ =~= wire_order(*self));
        w
    }
}

/// Scaling is monotone in the factor, channel by channel.
pub proof fn lemma_scale_monotonic(c: Color, f1: nat, f2: nat)
    requires
        f1 <= f2,
    ensures
        scaled(c, f1).r <= scaled(c, f2).r,
        scaled(c, f1).g <= scaled(c, f2).g,
        scaled(c, f1).b <= scaled(c, f2).b,
{
    assert forall|x: u8| scale_channel(x, f1) <= scale_channel(x, f2) by {
        let a = clamp_factor(f1);
        let b = clamp_factor(f2);
        let one = SCALE_ONE as nat;
        assert(x as nat * a <= x as nat * b) by (nonlinear_arith)
            requires
                a <= b,
        ;
        assert((x as nat * a) / one <= (x as nat * b) / one) by (nonlinear_arith)
            requires
                x as nat * a <= x as nat * b,
                one > 0,
        ;
    }
    assert forall|x: u8| scale_channel(x, f2) <= x as nat by {
        lemma_scale_channel_bounds(x, f2);
    }
}

/// A factor of zero gives black, a factor of one keeps the color, and a factor
/// above one acts as one.
pub proof fn lemma_scale_ends(c: Color, f: nat)
    ensures
        scaled(c, 0) == black_spec(),
        scaled(c, SCALE_ONE as nat) == c,
        f >= SCALE_ONE as nat ==> scaled(c, f) == c,
{
    let one = SCALE_ONE as nat;
    assert forall|x: u8| scale_channel(x, 0) == 0 && scale_channel(x, one) == x as nat by {
        assert((x as nat * 0) / one == 0) by (nonlinear_arith)
            requires
                one > 0,
        ;
        assert((x as nat * one) / one == x as nat) by (nonlinear_arith)
            requires
                one > 0,
        ;
    }
    assert(f >= one ==> clamp_factor(f) == one);
}

/// The wire order is green, red, blue.
pub proof fn lemma_wire_order(r: u8, g: u8, b: u8)
    ensures
        wire_order(Color { r, g, b }) == seq![g, r, b],
{
}

} // verus!
