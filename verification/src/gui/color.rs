//! A small colour type and the alpha arithmetic that goes with it.
//!
//! A colour is kept as four bytes in the order B, G, R, A (ARGB8888 little-endian), with the
//! colour channels premultiplied by the alpha. The same byte layout is what the compositor expects
//! in a shared-memory buffer, so the spec functions below also describe single pixels.

use vstd::prelude::*;

verus! {

/// `c * a / 255`, rounded down: a colour component "multiplied" by an alpha, both in 0..=255.
pub open spec fn spec_alpha_mul(c: u8, a: u8) -> u8 {
    ((c as int) * (a as int) / 255) as u8
}

/// `c * a / 255` is never negative and is at most each of `c` and `a`, so it fits in a byte.
pub proof fn lemma_alpha_mul_bounds(c: u8, a: u8)
    ensures
        0 <= (c as int) * (a as int) / 255 <= c,
        (c as int) * (a as int) / 255 <= a,
        spec_alpha_mul(c, a) as int == (c as int) * (a as int) / 255,
{
    assert((c as int) * (a as int) <= (c as int) * 255) by (nonlinear_arith)
        requires
            a <= 255,
            0 <= c,
    ;
    assert((c as int) * (a as int) <= 255 * (a as int)) by (nonlinear_arith)
        requires
            c <= 255,
            0 <= a,
    ;
    assert(0 <= (c as int) * (a as int)) by (nonlinear_arith)
        requires
            0 <= c,
            0 <= a,
    ;
}

/// Multiplying by a larger component gives a larger (or equal) product.
pub proof fn lemma_alpha_mul_monotonic(c: u8, d: u8, a: u8)
    requires
        c <= d,
    ensures
        spec_alpha_mul(c, a) <= spec_alpha_mul(d, a),
{
    lemma_alpha_mul_bounds(c, a);
    lemma_alpha_mul_bounds(d, a);
    assert((c as int) * (a as int) <= (d as int) * (a as int)) by (nonlinear_arith)
        requires
            c <= d,
            0 <= a,
    ;
    vstd::arithmetic::div_mod::lemma_div_is_ordered(
        (c as int) * (a as int),
        (d as int) * (a as int),
        255,
    );
}

/// An alpha of 255 is 1.0, an alpha of 0 is 0.0.
pub proof fn lemma_alpha_mul_identity_and_zero(c: u8)
    ensures
        spec_alpha_mul(c, 255) == c,
        spec_alpha_mul(c, 0) == 0,
        spec_alpha_mul(0, c) == 0,
{
    lemma_alpha_mul_bounds(c, 255);
    lemma_alpha_mul_bounds(c, 0);
    lemma_alpha_mul_bounds(0, c);
    assert((c as int) * 255 / 255 == c as int) by (nonlinear_arith);
}

/// Whether four bytes are a valid premultiplied pixel: no colour channel exceeds the alpha.
pub open spec fn is_premultiplied(p: Seq<u8>) -> bool {
    &&& p.len() == 4
    &&& p[0] <= p[3]
    &&& p[1] <= p[3]
    &&& p[2] <= p[3]
}

/// The four bytes, in the order B, G, R, A, of the colour `(r, g, b, a)` with its colour channels
/// premultiplied by `a`.
pub open spec fn spec_premultiply(r: u8, g: u8, b: u8, a: u8) -> Seq<u8> {
    seq![spec_alpha_mul(b, a), spec_alpha_mul(g, a), spec_alpha_mul(r, a), a]
}

/// Every channel of a premultiplied pixel scaled by an additional `alpha`.
pub open spec fn spec_add_alpha(p: Seq<u8>, alpha: u8) -> Seq<u8> {
    seq![
        spec_alpha_mul(p[0], alpha),
        spec_alpha_mul(p[1], alpha),
        spec_alpha_mul(p[2], alpha),
        spec_alpha_mul(p[3], alpha),
    ]
}

/// Channel `i` of `fg` drawn over `bg` (src-over), before it is stored in a byte:
/// `fg[i] + bg[i] * (1 - fg.a)`.
pub open spec fn overlay_channel(bg: Seq<u8>, fg: Seq<u8>, i: int) -> int {
    fg[i] + spec_alpha_mul(bg[i], (255 - fg[3]) as u8)
}

/// The alpha of `fg` drawn over `bg` (src-over), before it is stored in a byte:
/// `fg.a + bg.a - fg.a * bg.a`.
pub open spec fn overlay_alpha(bg: Seq<u8>, fg: Seq<u8>) -> int {
    fg[3] + bg[3] - spec_alpha_mul(fg[3], bg[3])
}

/// Whether drawing `fg` over `bg` keeps each colour channel within a byte. An opaque `fg` replaces
/// `bg` and always fits.
pub open spec fn overlay_fits(bg: Seq<u8>, fg: Seq<u8>) -> bool {
    fg[3] == 255 || (overlay_channel(bg, fg, 0) <= 255 && overlay_channel(bg, fg, 1) <= 255
        && overlay_channel(bg, fg, 2) <= 255)
}

/// The premultiplied pixel `fg` drawn over the premultiplied pixel `bg` (src-over): an opaque
/// `fg` replaces `bg`; otherwise each colour channel is `fg + bg * (1 - fg.a)` and the alpha is
/// `fg.a + bg.a - fg.a * bg.a`.
pub open spec fn spec_overlay(bg: Seq<u8>, fg: Seq<u8>) -> Seq<u8> {
    if fg[3] == 255 {
        fg
    } else {
        seq![
            overlay_channel(bg, fg, 0) as u8,
            overlay_channel(bg, fg, 1) as u8,
            overlay_channel(bg, fg, 2) as u8,
            overlay_alpha(bg, fg) as u8,
        ]
    }
}

/// The alpha of an overlay is always a byte: `0 <= fg.a + bg.a - fg.a * bg.a / 255 <= 255`.
pub proof fn lemma_overlay_alpha_bounds(bg: Seq<u8>, fg: Seq<u8>)
    requires
        bg.len() == 4,
        fg.len() == 4,
    ensures
        fg[3] <= overlay_alpha(bg, fg) <= 255,
        bg[3] <= overlay_alpha(bg, fg),
{
    let fa = fg[3];
    let ba = bg[3];
    lemma_alpha_mul_bounds(fa, ba);
    let x = (fa as int) * (ba as int);
    assert(x >= 255 * (fa as int) + 255 * (ba as int) - 255 * 255) by (nonlinear_arith)
        requires
            x == (fa as int) * (ba as int),
            fa <= 255,
            ba <= 255,
    ;
}

/// Drawing one valid premultiplied pixel over another never overflows a channel, and the result
/// is again a valid premultiplied pixel.
pub proof fn lemma_overlay_keeps_premultiplied(bg: Seq<u8>, fg: Seq<u8>)
    requires
        is_premultiplied(bg),
        is_premultiplied(fg),
    ensures
        overlay_fits(bg, fg),
        is_premultiplied(spec_overlay(bg, fg)),
{
    if fg[3] != 255 {
        let fa = fg[3];
        let ba = bg[3];
        let inv = (255 - fa) as u8;
        lemma_overlay_alpha_bounds(bg, fg);
        lemma_alpha_mul_bounds(fa, ba);
        lemma_alpha_mul_bounds(ba, inv);
        // bg.a * (1 - fg.a) <= bg.a - fg.a * bg.a
        let x = (fa as int) * (ba as int);
        assert((ba as int) * (inv as int) == 255 * (ba as int) - x) by (nonlinear_arith)
            requires
                x == (fa as int) * (ba as int),
                inv == 255 - fa,
        ;
        assert((255 * (ba as int) - x) / 255 <= (ba as int) - x / 255) by (nonlinear_arith)
            requires
                0 <= x,
        ;
        assert(spec_alpha_mul(ba, inv) as int <= (ba as int) - spec_alpha_mul(fa, ba) as int);
        assert forall|i: int| 0 <= i < 3 implies overlay_channel(bg, fg, i) <= overlay_alpha(
            bg,
            fg,
        ) by {
            lemma_alpha_mul_monotonic(bg[i], ba, inv);
        }
    }
}

/// Premultiplying by a full alpha keeps the colour channels; by a zero alpha clears them.
pub proof fn lemma_premultiply_opaque_and_transparent(r: u8, g: u8, b: u8)
    ensures
        spec_premultiply(r, g, b, 255) == seq![b, g, r, 255u8],
        spec_premultiply(r, g, b, 0) == seq![0u8, 0u8, 0u8, 0u8],
{
    lemma_alpha_mul_identity_and_zero(r);
    lemma_alpha_mul_identity_and_zero(g);
    lemma_alpha_mul_identity_and_zero(b);
    assert(spec_premultiply(r, g, b, 255) =~= seq![b, g, r, 255u8]);
    assert(spec_premultiply(r, g, b, 0) =~= seq![0u8, 0u8, 0u8, 0u8]);
}

/// Premultiplying always gives a valid premultiplied pixel.
pub proof fn lemma_premultiply_is_premultiplied(r: u8, g: u8, b: u8, a: u8)
    ensures
        is_premultiplied(spec_premultiply(r, g, b, a)),
{
    lemma_alpha_mul_bounds(r, a);
    lemma_alpha_mul_bounds(g, a);
    lemma_alpha_mul_bounds(b, a);
}

/// An additional alpha of 255 changes nothing; an additional alpha of 0 clears every channel.
pub proof fn lemma_add_alpha_full_and_zero(p: Seq<u8>)
    requires
        p.len() == 4,
    ensures
        spec_add_alpha(p, 255) == p,
        spec_add_alpha(p, 0) == seq![0u8, 0u8, 0u8, 0u8],
{
    lemma_alpha_mul_identity_and_zero(p[0]);
    lemma_alpha_mul_identity_and_zero(p[1]);
    lemma_alpha_mul_identity_and_zero(p[2]);
    lemma_alpha_mul_identity_and_zero(p[3]);
    assert(spec_add_alpha(p, 255) =~= p);
    assert(spec_add_alpha(p, 0) =~= seq![0u8, 0u8, 0u8, 0u8]);
}

/// Adding transparency to a valid premultiplied pixel gives a valid premultiplied pixel.
pub proof fn lemma_add_alpha_keeps_premultiplied(p: Seq<u8>, alpha: u8)
    requires
        is_premultiplied(p),
    ensures
        is_premultiplied(spec_add_alpha(p, alpha)),
{
    lemma_alpha_mul_monotonic(p[0], p[3], alpha);
    lemma_alpha_mul_monotonic(p[1], p[3], alpha);
    lemma_alpha_mul_monotonic(p[2], p[3], alpha);
}

/// An opaque foreground completely replaces the background, whatever the background was.
pub proof fn lemma_opaque_foreground_replaces(bg: Seq<u8>, fg: Seq<u8>)
    requires
        fg.len() == 4,
        fg[3] == 255,
    ensures
        overlay_fits(bg, fg),
        spec_overlay(bg, fg) == fg,
{
}

/// A fully transparent foreground (all zero once premultiplied) leaves the background unchanged.
pub proof fn lemma_transparent_foreground_keeps_background(bg: Seq<u8>)
    requires
        bg.len() == 4,
    ensures
        overlay_fits(bg, seq![0u8, 0u8, 0u8, 0u8]),
        spec_overlay(bg, seq![0u8, 0u8, 0u8, 0u8]) == bg,
{
    let fg = seq![0u8, 0u8, 0u8, 0u8];
    lemma_alpha_mul_identity_and_zero(bg[0]);
    lemma_alpha_mul_identity_and_zero(bg[1]);
    lemma_alpha_mul_identity_and_zero(bg[2]);
    lemma_alpha_mul_identity_and_zero(bg[3]);
    assert(spec_overlay(bg, fg) =~= bg);
}

/// Drawing over an empty (all zero) background reproduces the foreground.
pub proof fn lemma_overlay_onto_empty_yields_foreground(fg: Seq<u8>)
    requires
        fg.len() == 4,
    ensures
        overlay_fits(seq![0u8, 0u8, 0u8, 0u8], fg),
        spec_overlay(seq![0u8, 0u8, 0u8, 0u8], fg) == fg,
{
    let bg = seq![0u8, 0u8, 0u8, 0u8];
    lemma_alpha_mul_identity_and_zero((255 - fg[3]) as u8);
    lemma_alpha_mul_identity_and_zero(fg[3]);
    assert(spec_overlay(bg, fg) =~= fg);
}

/// "Multiply" a colour component by an alpha in the 0..=255 range: `c * a / 255`, rounded down.
pub fn alpha_mul(c: u8, a: u8) -> (r: u8)
    ensures
        r == spec_alpha_mul(c, a),
        r as int == (c as int) * (a as int) / 255,
{
    proof {
        lemma_alpha_mul_bounds(c, a);
    }
    let p: u32 = (c as u32) * (a as u32);
    (p / 255) as u8
}

/// Colour in the RGBA colour space.
#[derive(Copy, Clone, Debug, PartialEq, Eq)]
pub struct Color {
    // ARGB8888 little-endian (so B, G, R, A) with premultiplied alpha: the representation the
    // compositor wants. Callers see it only through `as_argb_le_premul`.
    bgra: [u8; 4],
}

impl View for Color {
    type V = Seq<u8>;

    /// The four stored bytes, in the order B, G, R, A.
    closed spec fn view(&self) -> Seq<u8> {
        self.bgra@
    }
}

/// A colour is always four bytes.
pub broadcast proof fn lemma_color_view_len(c: Color)
    ensures
        #[trigger] c@.len() == 4,
{
}

impl Color {
    /// Construct a `Color` from rgba components, *without premultiplied alpha*.
    pub fn from_rgba(r: u8, g: u8, b: u8, a: u8) -> (res: Self)
        ensures
            res@ == spec_premultiply(r, g, b, a),
            is_premultiplied(res@),
    {
        proof {
            lemma_alpha_mul_bounds(r, a);
            lemma_alpha_mul_bounds(g, a);
            lemma_alpha_mul_bounds(b, a);
        }
        let res = Self { bgra: [alpha_mul(b, a), alpha_mul(g, a), alpha_mul(r, a), a] };
        assert(res@ =~= spec_premultiply(r, g, b, a));
        res
    }

    /// Construct a `Color` from a little-endian ARGB8888 representation with pre-multiplied alpha.
    pub fn from_argb_le_premul(bgra: [u8; 4]) -> (res: Self)
        ensures
            res@ == bgra@,
    {
        Self { bgra }
    }

    /// Get the `Color` as a little-endian ARGB8888 representation with pre-multiplied alpha.
    pub fn as_argb_le_premul(&self) -> (res: &[u8; 4])
        ensures
            res@ == self@,
    {
        &self.bgra
    }

    /// Overlay another color on top of this one (src-over).
    pub fn overlay_other(self, fg: Color) -> (res: Color)
        requires
            overlay_fits(self@, fg@),
        ensures
            res@ == spec_overlay(self@, fg@),
    {
        if fg.bgra[3] == 255 {
            return fg;
        }
        let inv: u8 = 255 - fg.bgra[3];
        let fa: u8 = fg.bgra[3];
        let ba: u8 = self.bgra[3];
        proof {
            lemma_overlay_alpha_bounds(self@, fg@);
            lemma_alpha_mul_bounds(fa, ba);
        }
        let alpha: u32 = (fa as u32) + (ba as u32) - (alpha_mul(fa, ba) as u32);
        let res = Color {
            bgra: [
                fg.bgra[0] + alpha_mul(self.bgra[0], inv),
                fg.bgra[1] + alpha_mul(self.bgra[1], inv),
                fg.bgra[2] + alpha_mul(self.bgra[2], inv),
                alpha as u8,
            ],
        };
        assert(res@ =~= spec_overlay(self@, fg@));
        res
    }

    /// Add "more transparency" to the color.
    pub fn add_alpha(self, alpha: u8) -> (res: Color)
        ensures
            res@ == spec_add_alpha(self@, alpha),
    {
        let res = Color {
            bgra: [
                alpha_mul(self.bgra[0], alpha),
                alpha_mul(self.bgra[1], alpha),
                alpha_mul(self.bgra[2], alpha),
                alpha_mul(self.bgra[3], alpha),
            ],
        };
        assert(res@ =~= spec_add_alpha(self@, alpha));
        res
    }
}

} // verus!
