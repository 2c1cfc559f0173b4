//! The decisions of the Wayland user interface: how the surface is sized, what a key event does,
//! and which bytes a frame holds. The Wayland objects themselves live outside this library.

use vstd::prelude::*;

use crate::app;
use crate::gui::color::{
    is_premultiplied, lemma_alpha_mul_bounds, lemma_overlay_alpha_bounds, overlay_fits,
    spec_alpha_mul, spec_overlay, spec_premultiply,
};
use crate::gui::keyboard;

verus! {

/// A colour in the RGBA colour model, without premultiplied alpha.
#[derive(Copy, Clone, Debug)]
pub struct Rgba {
    pub r: u8,
    pub g: u8,
    pub b: u8,
    pub a: u8,
}

impl Rgba {
    pub fn new(r: u8, g: u8, b: u8, a: u8) -> (res: Self)
        ensures
            res == (Rgba { r, g, b, a }),
    {
        Rgba { r, g, b, a }
    }
}

/// How the prompt looks.
pub struct Config {
    pub bg_color: Rgba,
    pub text_color: Rgba,
    pub text_margin: u8,
    pub font: String,
    pub font_size: u8,
    pub height: u32,
}

/// The look of the prompt: light grey 12 point monospace text, 10 pixels off the edges, on a
/// dark grey opaque bar 25 pixels high.
pub fn default_config() -> (cfg: Config)
    ensures
        cfg.bg_color == (Rgba { r: 0x20, g: 0x20, b: 0x20, a: 0xff }),
        cfg.text_color == (Rgba { r: 0xa0, g: 0xa0, b: 0xa0, a: 0xff }),
        cfg.text_margin == 10,
        cfg.font@ == "monospace"@,
        cfg.font_size == 12,
        cfg.height == 25,
{
    Config {
        bg_color: Rgba::new(0x20, 0x20, 0x20, 0xff),
        text_color: Rgba::new(0xa0, 0xa0, 0xa0, 0xff),
        text_margin: 10,
        font: "monospace".to_owned(),
        font_size: 12,
        height: 25,
    }
}

/// "Multiply" a colour component by an alpha in the 0..=255 range: `c * a / 255`, rounded down.
pub fn u8_alpha_mul(c: u8, a: u8) -> (res: u8)
    ensures
        res == spec_alpha_mul(c, a),
        res as int == (c as int) * (a as int) / 255,
{
    proof {
        lemma_alpha_mul_bounds(c, a);
    }
    let p: u32 = (c as u32) * (a as u32);
    (p / 255) as u8
}

/// Convert an RGBA colour into the ARGB8888 little-endian format *with premultiplied alpha* that
/// DRM and Wayland expect: the bytes B, G, R, A.
pub fn rgba_to_argb_le_premul(rgba: Rgba) -> (res: [u8; 4])
    ensures
        res@ == spec_premultiply(rgba.r, rgba.g, rgba.b, rgba.a),
        is_premultiplied(res@),
{
    proof {
        lemma_alpha_mul_bounds(rgba.r, rgba.a);
        lemma_alpha_mul_bounds(rgba.g, rgba.a);
        lemma_alpha_mul_bounds(rgba.b, rgba.a);
    }
    let res = [
        u8_alpha_mul(rgba.b, rgba.a),
        u8_alpha_mul(rgba.g, rgba.a),
        u8_alpha_mul(rgba.r, rgba.a),
        rgba.a,
    ];
    assert(res@ =~= spec_premultiply(rgba.r, rgba.g, rgba.b, rgba.a));
    res
}

/// Apply an "additional" alpha to the colour.
pub fn combine_alpha(rgba: Rgba, alpha: u8) -> (res: Rgba)
    ensures
        res == combine_alpha_spec(rgba, alpha),
{
    Rgba::new(rgba.r, rgba.g, rgba.b, u8_alpha_mul(rgba.a, alpha))
}

/// Overlay one pixel onto another (src-over). Both pixels are ARGB8888 little-endian with
/// premultiplied alpha; `bg` is updated in place.
pub fn overlay_pixel(fg: &[u8], bg: &mut [u8])
    requires
        fg@.len() == 4,
        old(bg)@.len() == 4,
        overlay_fits(old(bg)@, fg@),
    ensures
        final(bg)@ == spec_overlay(old(bg)@, fg@),
{
    if fg[3] == 255 {
        bg[0] = fg[0];
        bg[1] = fg[1];
        bg[2] = fg[2];
        bg[3] = fg[3];
        assert(bg@ =~= fg@);
        return;
    }
    let ghost old_bg = bg@;
    let inv: u8 = 255 - fg[3];
    proof {
        lemma_overlay_alpha_bounds(old_bg, fg@);
        lemma_alpha_mul_bounds(fg[3], bg[3]);
    }
    bg[0] = fg[0] + u8_alpha_mul(bg[0], inv);
    bg[1] = fg[1] + u8_alpha_mul(bg[1], inv);
    bg[2] = fg[2] + u8_alpha_mul(bg[2], inv);
    let alpha: u32 = (fg[3] as u32) + (bg[3] as u32) - (u8_alpha_mul(fg[3], bg[3]) as u32);
    bg[3] = alpha as u8;
    assert(bg@ =~= spec_overlay(old_bg, fg@));
}

/// The key press that a Wayland key event means to the editor: the first character of the
/// event's text with the Ctrl, Alt and Shift state copied, or nothing for a key without text.
pub open spec fn spec_wayland_key_to_editor_key(
    modifiers: keyboard::Modifiers,
    key: keyboard::KeyEvent,
) -> Option<app::KeyPress> {
    match key.utf8 {
        Some(s) => if s@.len() > 0 {
            Some(
                app::KeyPress {
                    modifiers: app::Modifiers {
                        ctrl: modifiers.ctrl,
                        alt: modifiers.alt,
                        shift: modifiers.shift,
                    },
                    key: app::KeyCode::Char(s@[0]),
                },
            )
        } else {
            None
        },
        None => None,
    }
}

/// Translate a Wayland key event into the key press the editor expects. Returns `None` when the
/// editor does not care about the event (the key enters no text).
pub fn wayland_key_to_editor_key(
    modifiers: keyboard::Modifiers,
    key: &keyboard::KeyEvent,
) -> (res: Option<app::KeyPress>)
    ensures
        res == spec_wayland_key_to_editor_key(modifiers, *key),
{
    match &key.utf8 {
        Some(s) => {
            let s = s.as_str();
            if s.is_empty() {
                None
            } else {
                Some(
                    app::KeyPress {
                        modifiers: app::Modifiers {
                            ctrl: modifiers.ctrl,
                            alt: modifiers.alt,
                            shift: modifiers.shift,
                        },
                        key: app::KeyCode::Char(s.get_char(0)),
                    },
                )
            }
        },
        None => None,
    }
}

/// The size, scale and background of the surface.
#[derive(Copy, Clone)]
pub struct SurfaceProperties {
    pub width: u32,
    pub height: u32,
    pub scale_factor: u32,
    pub bg_color: [u8; 4],
}

impl Default for SurfaceProperties {
    /// 512 by 25 pixels at scale 1 on an opaque black background.
    fn default() -> (res: SurfaceProperties)
        ensures
            res.width == 512,
            res.height == 25,
            res.scale_factor == 1,
            res.bg_color@ == seq![0u8, 0u8, 0u8, 0xffu8],
    {
        let res = SurfaceProperties {
            width: 512,
            height: 25,
            scale_factor: 1,
            bg_color: [0, 0, 0, 0xff],
        };
        assert(res.bg_color@ =~= seq![0u8, 0u8, 0u8, 0xffu8]);
        res
    }
}

/// The byte offset in a frame `width` pixels wide of the pixel that a glyph pixel at `(x, y)`
/// lands on, with the text `margin` pixels off the top and the left.
pub open spec fn pixel_offset(width: int, margin: int, x: int, y: int) -> int {
    ((y + margin) * width + x + margin) * 4
}

/// A frame of `n` pixels, each of them `px`.
pub open spec fn spec_filled(n: nat, px: Seq<u8>) -> Seq<u8> {
    Seq::new(n * 4, |i: int| px[i % 4])
}

/// The four bytes at pixel index `k` of a frame.
pub open spec fn pixel_at(frame: Seq<u8>, k: int) -> Seq<u8> {
    frame.subrange(4 * k, 4 * k + 4)
}

/// Whether a frame is whole pixels, each of them a valid premultiplied pixel.
pub open spec fn frame_premultiplied(frame: Seq<u8>) -> bool {
    &&& frame.len() % 4 == 0
    &&& forall|k: int| 0 <= k < frame.len() / 4 ==> is_premultiplied(#[trigger] pixel_at(frame, k))
}

/// The frame with the pixel at byte offset `pos` replaced by `fg` drawn over it.
pub open spec fn spec_overlay_at(frame: Seq<u8>, pos: int, fg: Seq<u8>) -> Seq<u8> {
    frame.subrange(0, pos) + spec_overlay(frame.subrange(pos, pos + 4), fg) + frame.subrange(
        pos + 4,
        frame.len() as int,
    )
}

/// The premultiplied pixel of the text colour at the coverage `alpha` of a glyph pixel.
pub open spec fn spec_text_pixel(text_color: Rgba, alpha: u8) -> Seq<u8> {
    spec_premultiply(text_color.r, text_color.g, text_color.b, spec_alpha_mul(text_color.a, alpha))
}

/// The frame after drawing the glyph pixels `(x, y, alpha)` in order: each one is drawn over the
/// frame pixel at `(x + margin, y + margin)` in the text colour at coverage `alpha`; a glyph
/// pixel whose byte offset is at or past the end of the frame is left out.
pub open spec fn spec_draw_glyphs(
    frame: Seq<u8>,
    glyphs: Seq<(u32, u32, u8)>,
    width: u32,
    margin: u8,
    text_color: Rgba,
) -> Seq<u8>
    decreases glyphs.len(),
{
    if glyphs.len() == 0 {
        frame
    } else {
        let before = spec_draw_glyphs(frame, glyphs.drop_last(), width, margin, text_color);
        let g = glyphs.last();
        let pos = pixel_offset(width as int, margin as int, g.0 as int, g.1 as int);
        if pos < before.len() {
            spec_overlay_at(before, pos, spec_text_pixel(text_color, g.2))
        } else {
            before
        }
    }
}

/// Drawing a valid premultiplied pixel over a pixel of a frame of valid premultiplied pixels
/// keeps every pixel valid, changes only that pixel, and never overflows.
pub proof fn lemma_overlay_at_keeps_frame(frame: Seq<u8>, k: int, fg: Seq<u8>)
    requires
        frame_premultiplied(frame),
        0 <= k < frame.len() / 4,
        is_premultiplied(fg),
    ensures
        overlay_fits(pixel_at(frame, k), fg),
        spec_overlay_at(frame, 4 * k, fg).len() == frame.len(),
        frame_premultiplied(spec_overlay_at(frame, 4 * k, fg)),
        pixel_at(spec_overlay_at(frame, 4 * k, fg), k) == spec_overlay(pixel_at(frame, k), fg),
        forall|j: int|
            0 <= j < frame.len() / 4 && j != k ==> #[trigger] pixel_at(
                spec_overlay_at(frame, 4 * k, fg),
                j,
            ) == pixel_at(frame, j),
{
    let pos = 4 * k;
    let old_px = pixel_at(frame, k);
    assert(is_premultiplied(old_px));
    crate::gui::color::lemma_overlay_keeps_premultiplied(old_px, fg);
    let new_px = spec_overlay(old_px, fg);
    let after = spec_overlay_at(frame, pos, fg);
    assert(new_px.len() == 4);
    assert(after.len() == frame.len());
    assert(pixel_at(after, k) =~= new_px);
    assert forall|j: int| 0 <= j < frame.len() / 4 && j != k implies #[trigger] pixel_at(after, j)
        == pixel_at(frame, j) by {
        assert(pixel_at(after, j) =~= pixel_at(frame, j));
    }
    assert forall|j: int| 0 <= j < after.len() / 4 implies is_premultiplied(
        #[trigger] pixel_at(after, j),
    ) by {
        if j != k {
            assert(pixel_at(after, j) =~= pixel_at(frame, j));
        }
    }
}

/// A frame filled with a valid premultiplied pixel is made of valid premultiplied pixels.
pub proof fn lemma_filled_frame_premultiplied(n: nat, px: Seq<u8>)
    requires
        is_premultiplied(px),
    ensures
        frame_premultiplied(spec_filled(n, px)),
        spec_filled(n, px).len() == n * 4,
{
    let f = spec_filled(n, px);
    assert forall|k: int| 0 <= k < f.len() / 4 implies is_premultiplied(#[trigger] pixel_at(f, k))
        by {
        assert(pixel_at(f, k) =~= px);
    }
}

/// Drawing glyph pixels over a frame of valid premultiplied pixels keeps its length and keeps
/// every pixel valid.
pub proof fn lemma_draw_glyphs_keeps_frame(
    frame: Seq<u8>,
    glyphs: Seq<(u32, u32, u8)>,
    width: u32,
    margin: u8,
    text_color: Rgba,
)
    requires
        frame_premultiplied(frame),
    ensures
        spec_draw_glyphs(frame, glyphs, width, margin, text_color).len() == frame.len(),
        frame_premultiplied(spec_draw_glyphs(frame, glyphs, width, margin, text_color)),
    decreases glyphs.len(),
{
    if glyphs.len() > 0 {
        lemma_draw_glyphs_keeps_frame(frame, glyphs.drop_last(), width, margin, text_color);
        let before = spec_draw_glyphs(frame, glyphs.drop_last(), width, margin, text_color);
        let g = glyphs.last();
        let pos = pixel_offset(width as int, margin as int, g.0 as int, g.1 as int);
        if 0 <= pos < before.len() {
            let c = combine_alpha_spec(text_color, g.2);
            crate::gui::color::lemma_premultiply_is_premultiplied(c.r, c.g, c.b, c.a);
            assert(pos % 4 == 0);
            lemma_overlay_at_keeps_frame(before, pos / 4, spec_text_pixel(text_color, g.2));
            assert(4 * (pos / 4) == pos);
        }
    }
}

/// The colour with its alpha scaled by `alpha`.
pub open spec fn combine_alpha_spec(rgba: Rgba, alpha: u8) -> Rgba {
    Rgba { r: rgba.r, g: rgba.g, b: rgba.b, a: spec_alpha_mul(rgba.a, alpha) }
}

/// What the user interface holds apart from its Wayland objects, as plain values.
pub struct GuiView {
    pub surface_properties: SurfaceProperties,
    pub modifiers: keyboard::Modifiers,
    pub text_color: Rgba,
    pub text_margin: u8,
    pub base_font_size: u8,
    pub text: Seq<char>,
    pub has_keyboard: bool,
    pub done: bool,
}

impl GuiView {
    /// The width of the frame buffer in pixels: the surface width times the scale factor.
    pub open spec fn buffer_width(self) -> int {
        self.surface_properties.width * self.surface_properties.scale_factor
    }

    /// The height of the frame buffer in pixels: the surface height times the scale factor.
    pub open spec fn buffer_height(self) -> int {
        self.surface_properties.height * self.surface_properties.scale_factor
    }

    /// Whether the frame buffer size fits the integer types it is computed in.
    pub open spec fn buffer_size_fits(self) -> bool {
        &&& self.buffer_width() <= u32::MAX
        &&& self.buffer_height() <= u32::MAX
        &&& self.buffer_width() * self.buffer_height() * 4 <= usize::MAX
    }

    /// Whether the byte offset of the glyph pixel `(x, y)` can be computed: its row and its
    /// offset fit in a `u32`.
    pub open spec fn glyph_fits(self, x: u32, y: u32) -> bool {
        let pos = pixel_offset(self.buffer_width(), self.text_margin as int, x as int, y as int);
        &&& y + self.text_margin <= u32::MAX
        &&& pos <= u32::MAX
    }

    /// Whether a frame can be drawn with these glyph pixels.
    pub open spec fn can_draw(self, glyphs: Seq<(u32, u32, u8)>) -> bool {
        &&& self.buffer_size_fits()
        &&& forall|i: int| 0 <= i < glyphs.len() ==> self.glyph_fits(#[trigger] glyphs[i].0, glyphs[i].1)
    }

    /// The frame: the background colour everywhere, with the glyph pixels drawn over it.
    pub open spec fn frame(self, glyphs: Seq<(u32, u32, u8)>) -> Seq<u8> {
        spec_draw_glyphs(
            spec_filled(
                (self.buffer_width() * self.buffer_height()) as nat,
                self.surface_properties.bg_color@,
            ),
            glyphs,
            self.buffer_width() as u32,
            self.text_margin,
            self.text_color,
        )
    }
}

/// The state of the user interface apart from its Wayland objects: the surface, the keyboard
/// modifiers, the text style and the prompt itself.
pub struct GuiState {
    surface_properties: SurfaceProperties,
    modifiers: keyboard::Modifiers,
    text_color: Rgba,
    text_margin: u8,
    base_font_size: u8,
    app: app::App,
    has_keyboard: bool,
    done: bool,
}

impl View for GuiState {
    type V = GuiView;

    closed spec fn view(&self) -> GuiView {
        GuiView {
            surface_properties: self.surface_properties,
            modifiers: self.modifiers,
            text_color: self.text_color,
            text_margin: self.text_margin,
            base_font_size: self.base_font_size,
            text: self.app@,
            has_keyboard: self.has_keyboard,
            done: self.done,
        }
    }
}

impl GuiState {
    /// The background is always a valid premultiplied pixel.
    #[verifier::type_invariant]
    closed spec fn background_premultiplied(self) -> bool {
        is_premultiplied(self.surface_properties.bg_color@)
    }

    /// The state for a new user interface: an empty prompt, no modifiers, the configured height,
    /// colours and font size, and the default width and scale.
    pub fn new(cfg: &Config) -> (res: GuiState)
        ensures
            res@.surface_properties.width == 512,
            res@.surface_properties.height == cfg.height,
            res@.surface_properties.scale_factor == 1,
            res@.surface_properties.bg_color@ == spec_premultiply(
                cfg.bg_color.r,
                cfg.bg_color.g,
                cfg.bg_color.b,
                cfg.bg_color.a,
            ),
            !res@.modifiers.ctrl && !res@.modifiers.alt && !res@.modifiers.shift
                && !res@.modifiers.caps_lock && !res@.modifiers.logo && !res@.modifiers.num_lock,
            res@.text_color == cfg.text_color,
            res@.text_margin == cfg.text_margin,
            res@.base_font_size == cfg.font_size,
            res@.text == Seq::<char>::empty(),
            !res@.has_keyboard,
            !res@.done,
    {
        let defaults = SurfaceProperties::default();
        GuiState {
            surface_properties: SurfaceProperties {
                height: cfg.height,
                bg_color: rgba_to_argb_le_premul(cfg.bg_color),
                ..defaults
            },
            modifiers: keyboard::Modifiers::default(),
            text_color: cfg.text_color,
            text_margin: cfg.text_margin,
            base_font_size: cfg.font_size,
            app: app::App::new(),
            has_keyboard: false,
            done: false,
        }
    }

    /// Whether the user interface is finished.
    pub fn is_done(&self) -> (res: bool)
        ensures
            res == self@.done,
    {
        self.done
    }

    /// The command line typed so far.
    pub fn current_text(&self) -> (res: &str)
        ensures
            res@ == self@.text,
    {
        self.app.current_text()
    }

    /// The surface was closed: the user interface is finished.
    pub fn closed(&mut self)
        ensures
            final(self)@ == (GuiView { done: true, ..old(self)@ }),
    {
        proof {
            use_type_invariant(&*self);
        }
        self.done = true;
    }

    /// The compositor changed the scale factor; it is taken as its unsigned bit pattern.
    pub fn scale_factor_changed(&mut self, new_factor: i32)
        ensures
            final(self)@ == (GuiView {
                surface_properties: SurfaceProperties {
                    scale_factor: new_factor as u32,
                    ..old(self)@.surface_properties
                },
                ..old(self)@
            }),
    {
        proof {
            use_type_invariant(&*self);
        }
        self.surface_properties.scale_factor = new_factor as u32;
    }

    /// The compositor configured the surface: a width hint above zero is taken, a zero hint
    /// keeps the width; the height stays fixed.
    pub fn configure(&mut self, new_width: u32)
        ensures
            final(self)@ == (GuiView {
                surface_properties: SurfaceProperties {
                    width: if new_width > 0 {
                        new_width
                    } else {
                        old(self)@.surface_properties.width
                    },
                    ..old(self)@.surface_properties
                },
                ..old(self)@
            }),
    {
        proof {
            use_type_invariant(&*self);
        }
        if new_width > 0 {
            self.surface_properties.width = new_width;
        }
    }

    /// The seat gained a capability. The keyboard is taken once, when the capability is the
    /// keyboard and none is held yet; the result says whether to take it now.
    pub fn new_capability(&mut self, is_keyboard: bool) -> (take: bool)
        ensures
            take == (is_keyboard && !old(self)@.has_keyboard),
            final(self)@ == (GuiView {
                has_keyboard: old(self)@.has_keyboard || is_keyboard,
                ..old(self)@
            }),
    {
        proof {
            use_type_invariant(&*self);
        }
        let take = is_keyboard && !self.has_keyboard;
        if take {
            self.has_keyboard = true;
        }
        take
    }

    /// The seat lost a capability. The keyboard is let go when the capability is the keyboard and
    /// one is held; the result says whether to release it now.
    pub fn remove_capability(&mut self, is_keyboard: bool) -> (release: bool)
        ensures
            release == (is_keyboard && old(self)@.has_keyboard),
            final(self)@ == (GuiView {
                has_keyboard: old(self)@.has_keyboard && !is_keyboard,
                ..old(self)@
            }),
    {
        proof {
            use_type_invariant(&*self);
        }
        let release = is_keyboard && self.has_keyboard;
        if release {
            self.has_keyboard = false;
        }
        release
    }

    /// The keyboard modifiers changed.
    pub fn update_modifiers(&mut self, modifiers: keyboard::Modifiers)
        ensures
            final(self)@ == (GuiView { modifiers, ..old(self)@ }),
    {
        proof {
            use_type_invariant(&*self);
        }
        self.modifiers = modifiers;
    }

    /// A key was pressed. Escape finishes the user interface; a key that enters text goes to the
    /// prompt, and then the frame has to be drawn again (the result says whether).
    pub fn press_key(&mut self, event: &keyboard::KeyEvent) -> (redraw: bool)
        ensures
            final(self)@.done == (old(self)@.done || event.keysym == keyboard::KEYSYM_ESCAPE),
            final(self)@.surface_properties == old(self)@.surface_properties,
            final(self)@.modifiers == old(self)@.modifiers,
            final(self)@.text_color == old(self)@.text_color,
            final(self)@.text_margin == old(self)@.text_margin,
            final(self)@.base_font_size == old(self)@.base_font_size,
            final(self)@.has_keyboard == old(self)@.has_keyboard,
            redraw == spec_wayland_key_to_editor_key(old(self)@.modifiers, *event) is Some,
            final(self)@.text == match spec_wayland_key_to_editor_key(
                old(self)@.modifiers,
                *event,
            ) {
                Some(kp) => app::readline::spec_apply_action(
                    old(self)@.text,
                    app::readline::spec_keypress_to_action(kp),
                ),
                None => old(self)@.text,
            },
    {
        proof {
            use_type_invariant(&*self);
        }
        if event.keysym == keyboard::KEYSYM_ESCAPE {
            self.done = true;
        }
        match wayland_key_to_editor_key(self.modifiers, event) {
            Some(key) => {
                let mut prompt = app::App::new();
                std::mem::swap(&mut prompt, &mut self.app);
                let _ = prompt.handle_key(&key);
                std::mem::swap(&mut prompt, &mut self.app);
                true
            },
            None => false,
        }
    }

    /// The size of the frame buffer in pixels: the surface size times the scale factor.
    pub fn buffer_size(&self) -> (res: (u32, u32))
        requires
            self@.buffer_width() <= u32::MAX,
            self@.buffer_height() <= u32::MAX,
        ensures
            res.0 == self@.buffer_width(),
            res.1 == self@.buffer_height(),
    {
        (
            self.surface_properties.width * self.surface_properties.scale_factor,
            self.surface_properties.height * self.surface_properties.scale_factor,
        )
    }

    /// Whether the font size in pixels fits in a `u32` (see `font_size`).
    pub fn font_size_fits(&self) -> (res: bool)
        ensures
            res == (self@.base_font_size * self@.surface_properties.scale_factor <= u32::MAX),
    {
        let base: u64 = self.base_font_size as u64;
        let scale: u64 = self.surface_properties.scale_factor as u64;
        assert(base * scale <= 0xff * 0xffff_ffffu64) by (nonlinear_arith)
            requires
                base <= 0xff,
                scale <= 0xffff_ffff,
        ;
        let size: u64 = base * scale;
        size <= (u32::MAX as u64)
    }

    /// The font size in pixels: the configured size times the scale factor.
    pub fn font_size(&self) -> (res: u32)
        requires
            self@.base_font_size * self@.surface_properties.scale_factor <= u32::MAX,
        ensures
            res == self@.base_font_size * self@.surface_properties.scale_factor,
    {
        (self.base_font_size as u32) * self.surface_properties.scale_factor
    }

    /// Whether a frame can be drawn with these glyph pixels: the frame buffer size fits, and the
    /// byte offset of every glyph pixel fits in a `u32`.
    pub fn can_draw(&self, glyphs: &Vec<(u32, u32, u8)>) -> (res: bool)
        ensures
            res == self@.can_draw(glyphs@),
    {
        let width: u128 = self.surface_properties.width as u128;
        let height: u128 = self.surface_properties.height as u128;
        let scale: u128 = self.surface_properties.scale_factor as u128;
        assert(width * scale <= 0xffff_ffff * 0xffff_ffffu128 && height * scale <= 0xffff_ffff
            * 0xffff_ffffu128) by (nonlinear_arith)
            requires
                width <= 0xffff_ffff,
                height <= 0xffff_ffff,
                scale <= 0xffff_ffff,
        ;
        let w: u128 = width * scale;
        let h: u128 = height * scale;
        if w > (u32::MAX as u128) || h > (u32::MAX as u128) {
            return false;
        }
        assert(w * h * 4 <= 0xffff_ffff * 0xffff_ffffu128 * 4) by (nonlinear_arith)
            requires
                w <= 0xffff_ffff,
                h <= 0xffff_ffff,
        ;
        let len: u128 = w * h * 4;
        if len > (usize::MAX as u128) {
            return false;
        }
        let margin: u128 = self.text_margin as u128;
        let mut i: usize = 0;
        while i < glyphs.len()
            invariant
                i <= glyphs@.len(),
                w == self@.buffer_width(),
                h == self@.buffer_height(),
                margin == self@.text_margin,
                self@.buffer_size_fits(),
                forall|j: int| 0 <= j < i ==> self@.glyph_fits(#[trigger] glyphs@[j].0, glyphs@[j].1),
            decreases glyphs@.len() - i,
        {
            let (x, y, _alpha) = glyphs[i];
            // Far below the range of a u128: (2^32 + 2^8) * 2^32 + 2^32 + 2^8, times 4.
            assert(((y as u128 + margin) * w + x as u128 + margin) * 4 <= 0x1_0000_0000_0000_0000_0000u128)
                by (nonlinear_arith)
                requires
                    y <= u32::MAX,
                    x <= u32::MAX,
                    margin <= 255,
                    w <= u32::MAX,
            ;
            let pos: u128 = ((y as u128 + margin) * w + x as u128 + margin) * 4;
            if y as u128 + margin > (u32::MAX as u128) || pos > (u32::MAX as u128) {
                return false;
            }
            i = i + 1;
        }
        true
    }

    /// Draw a frame: the background colour everywhere, then each glyph pixel `(x, y, alpha)` of
    /// the text, in order, drawn over the pixel at `(x + margin, y + margin)` in the text colour
    /// at coverage `alpha`. Glyph pixels at or past the end of the frame are left out (a font too
    /// large for the surface, or a text too long).
    pub fn draw(&self, glyphs: &Vec<(u32, u32, u8)>) -> (frame: Vec<u8>)
        requires
            self@.can_draw(glyphs@),
        ensures
            frame@ == self@.frame(glyphs@),
            frame@.len() == self@.buffer_width() * self@.buffer_height() * 4,
            frame_premultiplied(frame@),
    {
        proof {
            use_type_invariant(self);
        }
        let ghost v = self@;
        let (w, h) = self.buffer_size();
        assert((w as int) * (h as int) <= (w as int) * (h as int) * 4) by (nonlinear_arith)
            requires
                0 <= w,
                0 <= h,
        ;
        let n: usize = (w as usize) * (h as usize);
        let bg = self.surface_properties.bg_color;
        let ghost filled = spec_filled(n as nat, bg@);
        let mut frame: Vec<u8> = Vec::new();
        let mut i: usize = 0;
        while i < n
            invariant
                i <= n,
                n * 4 <= usize::MAX,
                frame@ == spec_filled(i as nat, bg@),
            decreases n - i,
        {
            frame.push(bg[0]);
            frame.push(bg[1]);
            frame.push(bg[2]);
            frame.push(bg[3]);
            i = i + 1;
            assert(frame@ =~= spec_filled(i as nat, bg@));
        }
        proof {
            lemma_filled_frame_premultiplied(n as nat, bg@);
            assert(glyphs@.subrange(0, 0) =~= Seq::<(u32, u32, u8)>::empty());
        }
        let margin: u32 = self.text_margin as u32;
        let mut j: usize = 0;
        while j < glyphs.len()
            invariant
                j <= glyphs@.len(),
                v == self@,
                v.can_draw(glyphs@),
                w == v.buffer_width(),
                h == v.buffer_height(),
                n == w * h,
                margin == v.text_margin,
                frame@.len() == n * 4,
                frame_premultiplied(frame@),
                frame@ == spec_draw_glyphs(filled, glyphs@.subrange(0, j as int), w, v.text_margin, v.text_color),
            decreases glyphs@.len() - j,
        {
            let (x, y, alpha) = glyphs[j];
            assert(v.glyph_fits(glyphs@[j as int].0, glyphs@[j as int].1));
            let ghost total = pixel_offset(w as int, margin as int, x as int, y as int);
            assert(total <= u32::MAX);
            assert((y + margin) * w <= (y + margin) * w + x + margin <= total) by (nonlinear_arith)
                requires
                    total == ((y + margin) * w + x + margin) * 4,
                    0 <= x,
                    0 <= y,
                    0 <= w,
                    0 <= margin,
            ;
            assert((y as int + margin as int) * (w as int) <= u32::MAX);
            let row: u32 = y + margin;
            let row_start: u32 = row * w;
            let pos32: u32 = (row_start + x + margin) * 4;
            let pos: usize = pos32 as usize;
            let ghost before = frame@;
            let fg = rgba_to_argb_le_premul(combine_alpha(self.text_color, alpha));
            if pos >= frame.len() {
                // The font is too large for the surface, or the text is too long.
            } else {
                assert(pos % 4 == 0);
                let ghost k = pos / 4;
                proof {
                    lemma_overlay_at_keeps_frame(before, k as int, fg@);
                    assert(4 * k == pos);
                }
                let mut px: [u8; 4] = [frame[pos], frame[pos + 1], frame[pos + 2], frame[pos + 3]];
                assert(px@ =~= pixel_at(before, k as int));
                overlay_pixel(&fg, &mut px);
                frame.set(pos, px[0]);
                frame.set(pos + 1, px[1]);
                frame.set(pos + 2, px[2]);
                frame.set(pos + 3, px[3]);
                assert(frame@ =~= spec_overlay_at(before, pos as int, fg@));
            }
            proof {
                assert(glyphs@.subrange(0, j + 1).drop_last() =~= glyphs@.subrange(0, j as int));
            }
            j = j + 1;
        }
        proof {
            assert(glyphs@.subrange(0, glyphs@.len() as int) =~= glyphs@);
        }
        frame
    }
}

/// The text pixel of a glyph pixel is the text colour with its alpha scaled by the coverage,
/// premultiplied, in the byte order B, G, R, A: `[b * a', g * a', r * a', a']` with
/// `a' = a * coverage / 255`. An opaque text colour at full coverage is `[b, g, r, 255]`.
pub proof fn lemma_text_pixel_channels(text_color: Rgba, alpha: u8)
    ensures
        ({
            let a2 = (text_color.a as int * alpha as int / 255) as u8;
            spec_text_pixel(text_color, alpha) == seq![
                (text_color.b as int * a2 as int / 255) as u8,
                (text_color.g as int * a2 as int / 255) as u8,
                (text_color.r as int * a2 as int / 255) as u8,
                a2,
            ]
        }),
        text_color.a == 255 ==> spec_text_pixel(text_color, 255) == seq![
            text_color.b,
            text_color.g,
            text_color.r,
            255u8,
        ],
{
    let a2 = (text_color.a as int * alpha as int / 255) as u8;
    assert(spec_text_pixel(text_color, alpha) =~= seq![
        (text_color.b as int * a2 as int / 255) as u8,
        (text_color.g as int * a2 as int / 255) as u8,
        (text_color.r as int * a2 as int / 255) as u8,
        a2,
    ]);
    if text_color.a == 255 {
        crate::gui::color::lemma_alpha_mul_identity_and_zero(255);
        crate::gui::color::lemma_premultiply_opaque_and_transparent(
            text_color.r,
            text_color.g,
            text_color.b,
        );
    }
}

/// A frame drawn with one opaque glyph pixel at full coverage holds the text colour, as
/// B, G, R, 255, at the pixel `(x + margin, y + margin)`, and the background everywhere else.
pub proof fn lemma_one_opaque_glyph_pixel(v: GuiView, x: u32, y: u32)
    requires
        v.text_color.a == 255,
        v.buffer_size_fits(),
        is_premultiplied(v.surface_properties.bg_color@),
        pixel_offset(v.buffer_width(), v.text_margin as int, x as int, y as int) < v.buffer_width()
            * v.buffer_height() * 4,
    ensures
        ({
            let frame = v.frame(seq![(x, y, 255u8)]);
            let k = (y as int + v.text_margin as int) * v.buffer_width() + x as int
                + v.text_margin as int;
            &&& frame.len() == v.buffer_width() * v.buffer_height() * 4
            &&& pixel_at(frame, k) == seq![v.text_color.b, v.text_color.g, v.text_color.r, 255u8]
            &&& forall|j: int|
                0 <= j < v.buffer_width() * v.buffer_height() && j != k ==> #[trigger] pixel_at(
                    frame,
                    j,
                ) == v.surface_properties.bg_color@
        }),
{
    let n = v.buffer_width() * v.buffer_height();
    assert(0 <= n) by (nonlinear_arith)
        requires
            n == v.buffer_width() * v.buffer_height(),
            0 <= v.buffer_width(),
            0 <= v.buffer_height(),
    ;
    let bg = v.surface_properties.bg_color@;
    let filled = spec_filled(n as nat, bg);
    lemma_filled_frame_premultiplied(n as nat, bg);
    let glyphs = seq![(x, y, 255u8)];
    let k = (y as int + v.text_margin as int) * v.buffer_width() + x as int + v.text_margin as int;
    let pos = pixel_offset(v.buffer_width(), v.text_margin as int, x as int, y as int);
    assert(pos == 4 * k);
    assert(0 <= k) by (nonlinear_arith)
        requires
            k == (y as int + v.text_margin as int) * v.buffer_width() + x as int
                + v.text_margin as int,
            0 <= y,
            0 <= v.text_margin,
            0 <= v.buffer_width(),
            0 <= x,
    ;
    assert(glyphs.drop_last() =~= Seq::<(u32, u32, u8)>::empty());
    assert(spec_draw_glyphs(
        filled,
        glyphs.drop_last(),
        v.buffer_width() as u32,
        v.text_margin,
        v.text_color,
    ) == filled);
    assert(filled.len() == n * 4);
    assert(v.frame(glyphs) == spec_overlay_at(filled, pos, spec_text_pixel(v.text_color, 255)));
    lemma_text_pixel_channels(v.text_color, 255);
    let fg = spec_text_pixel(v.text_color, 255);
    crate::gui::color::lemma_premultiply_is_premultiplied(
        v.text_color.r,
        v.text_color.g,
        v.text_color.b,
        255,
    );
    lemma_overlay_at_keeps_frame(filled, k, fg);
    crate::gui::color::lemma_opaque_foreground_replaces(pixel_at(filled, k), fg);
    assert forall|j: int| 0 <= j < n implies #[trigger] pixel_at(filled, j) == bg by {
        assert(pixel_at(filled, j) =~= bg);
    }
}

/// The key press made from a key event copies exactly the Ctrl, Alt and Shift state and carries
/// the first character of the event's text; there is one exactly when the text is not empty.
pub proof fn lemma_translation_copies_modifiers(modifiers: keyboard::Modifiers, key: keyboard::KeyEvent)
    ensures
        (spec_wayland_key_to_editor_key(modifiers, key) is Some) == (key.utf8 is Some
            && key.utf8->Some_0@.len() > 0),
        spec_wayland_key_to_editor_key(modifiers, key) matches Some(kp) ==> {
            &&& kp.modifiers.ctrl == modifiers.ctrl
            &&& kp.modifiers.alt == modifiers.alt
            &&& kp.modifiers.shift == modifiers.shift
            &&& kp.key == app::KeyCode::Char(key.utf8->Some_0@[0])
        },
{
}

/// Caps Lock, Num Lock and Logo do not change how a key event is translated.
pub proof fn lemma_lock_keys_do_not_matter(
    modifiers: keyboard::Modifiers,
    key: keyboard::KeyEvent,
    caps_lock: bool,
    num_lock: bool,
    logo: bool,
)
    ensures
        spec_wayland_key_to_editor_key(
            keyboard::Modifiers { caps_lock, num_lock, logo, ..modifiers },
            key,
        ) == spec_wayland_key_to_editor_key(modifiers, key),
{
}

/// A printable character typed with no Ctrl and no Alt reaches the prompt: its text gains that
/// character, whatever Caps Lock, Num Lock, Logo and Shift say.
pub proof fn lemma_typed_char_reaches_the_prompt(
    text: Seq<char>,
    modifiers: keyboard::Modifiers,
    key: keyboard::KeyEvent,
)
    requires
        !modifiers.ctrl,
        !modifiers.alt,
        key.utf8 is Some,
        key.utf8->Some_0@.len() > 0,
        !app::readline::is_cc(key.utf8->Some_0@[0]),
    ensures
        spec_wayland_key_to_editor_key(modifiers, key) matches Some(kp)
            && app::readline::spec_apply_action(
            text,
            app::readline::spec_keypress_to_action(kp),
        ) == text.push(key.utf8->Some_0@[0]),
{
    let ch = key.utf8->Some_0@[0];
    app::readline::lemma_printable_char_appended(text, ch, modifiers.shift);
}

} // verus!
