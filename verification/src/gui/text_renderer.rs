//! Loading the font from the bytes of its file, and turning the coverage bitmap of a rasterized
//! glyph into the pixels of the rendered text. Each pixel carries just its opacity; applying
//! colours is out of the scope of this module.

use vstd::prelude::*;

verus! {

/// A font parsed by fontdue.
#[verifier::external_type_specification]
#[verifier::external_body]
pub struct ExFont(fontdue::Font);

/// One entry of a font's naming table, as plain values: its name ID, whether ttf-parser takes its
/// encoding for Unicode (UTF-16BE), and its raw bytes.
pub struct FaceName {
    pub name_id: u16,
    pub is_unicode: bool,
    pub name: Vec<u8>,
}

/// A naming table entry with its bytes as a sequence.
pub struct FaceNameView {
    pub name_id: u16,
    pub is_unicode: bool,
    pub name: Seq<u8>,
}

impl View for FaceName {
    type V = FaceNameView;

    open spec fn view(&self) -> FaceNameView {
        FaceNameView { name_id: self.name_id, is_unicode: self.is_unicode, name: self.name@ }
    }
}

/// The naming table entries of the first face in `bytes`, in the order in which
/// `ttf_parser::Face::names` yields them, or `None` when `ttf_parser::Face::parse(bytes, 0)`
/// refuses the bytes.
pub uninterp spec fn spec_face_names(bytes: Seq<u8>) -> Option<Seq<FaceNameView>>;

/// `ttf_parser::Face::parse(bytes, 0)` followed by `Face::names`, each entry converted to plain
/// values (`Name::is_unicode` gives the encoding verdict): trusted to give exactly the entries
/// that `spec_face_names` names. ttf-parser reads nothing but the bytes and does not panic.
#[verifier::external_body]
fn face_names(bytes: &Vec<u8>) -> (res: Option<Vec<FaceName>>)
    ensures
        res is Some <==> spec_face_names(bytes@) is Some,
        res matches Some(names) ==> spec_face_names(bytes@) == Some(
            names@.map_values(|n: FaceName| n@),
        ),
{
    let face = match ttf_parser::Face::parse(bytes, 0) {
        Ok(face) => face,
        Err(_) => return None,
    };
    let mut names = Vec::new();
    for name in face.names() {
        names.push(FaceName { name_id: name.name_id, is_unicode: name.is_unicode(), name: name.name.to_vec() });
    }
    Some(names)
}

/// The big-endian UTF-16 code unit made of the bytes `hi` and `lo`.
pub open spec fn utf16_unit(hi: u8, lo: u8) -> int {
    hi as int * 256 + lo as int
}

/// Whether `s` is well-formed UTF-16BE: whole code units, every high surrogate (D800..=DBFF)
/// followed by a low surrogate (DC00..=DFFF), and no low surrogate on its own.
pub open spec fn valid_utf16_be(s: Seq<u8>) -> bool
    decreases s.len(),
{
    if s.len() == 0 {
        true
    } else if s.len() < 2 {
        false
    } else {
        let a = utf16_unit(s[0], s[1]);
        if a < 0xD800 || a > 0xDFFF {
            valid_utf16_be(s.subrange(2, s.len() as int))
        } else if a <= 0xDBFF && s.len() >= 4 && 0xDC00 <= utf16_unit(s[2], s[3]) <= 0xDFFF {
            valid_utf16_be(s.subrange(4, s.len() as int))
        } else {
            false
        }
    }
}

/// Whether a naming table entry is a full font name (name ID 4) in a Unicode encoding.
pub open spec fn is_unicode_full_name(n: FaceNameView) -> bool {
    n.name_id == 4 && n.is_unicode
}

/// Whether the first Unicode full font name of a naming table, if there is one, is well-formed
/// UTF-16BE.
pub open spec fn first_full_name_decodable(names: Seq<FaceNameView>) -> bool
    decreases names.len(),
{
    if names.len() == 0 {
        true
    } else if is_unicode_full_name(names[0]) {
        valid_utf16_be(names[0].name)
    } else {
        first_full_name_decodable(names.drop_first())
    }
}

/// Whether fontdue can take the font name out of `bytes`: either ttf-parser refuses the bytes
/// (and so does fontdue, before it reads any name), or the first Unicode full font name is
/// well-formed UTF-16BE.
pub open spec fn font_name_decodable(bytes: Seq<u8>) -> bool {
    match spec_face_names(bytes) {
        Some(names) => first_full_name_decodable(names),
        None => true,
    }
}

/// What parsing the bytes of a font file with fontdue's default settings reports, on the bytes on
/// which it returns: `None` when the bytes are a font, `Some` of fontdue's message when they are
/// not.
pub uninterp spec fn spec_font_parse_error(bytes: Seq<u8>) -> Option<Seq<char>>;

/// `fontdue::Font::from_bytes` with `FontSettings::default()`: trusted to succeed exactly when
/// `spec_font_parse_error` names no error for these bytes, and otherwise to fail with the message
/// that it names. The parse reads nothing but the bytes and the fixed default settings, and its
/// messages are constant strings. It panics when the first Unicode full font name (name ID 4)
/// that ttf-parser yields is not well-formed UTF-16BE (fontdue decodes it unchecked), so such
/// bytes are left out; fontdue parses with the same ttf-parser as `face_names`.
#[verifier::external_body]
fn font_from_bytes(bytes: Vec<u8>) -> (res: Result<fontdue::Font, &'static str>)
    requires
        font_name_decodable(bytes@),
    ensures
        res is Ok <==> spec_font_parse_error(bytes@) is None,
        res matches Err(e) ==> spec_font_parse_error(bytes@) == Some(e@),
{
    fontdue::Font::from_bytes(bytes, fontdue::FontSettings::default())
}

/// Whether `s` is well-formed UTF-16BE.
pub fn is_valid_utf16_be(s: &Vec<u8>) -> (res: bool)
    ensures
        res == valid_utf16_be(s@),
{
    let len = s.len();
    let mut i: usize = 0;
    proof {
        assert(s@.subrange(0, len as int) =~= s@);
    }
    while i < len
        invariant
            len == s@.len(),
            i <= len,
            valid_utf16_be(s@) == valid_utf16_be(s@.subrange(i as int, len as int)),
        decreases len - i,
    {
        let ghost rest = s@.subrange(i as int, len as int);
        if len - i < 2 {
            return false;
        }
        let a: u32 = (s[i] as u32) * 256 + (s[i + 1] as u32);
        assert(a == utf16_unit(rest[0], rest[1]));
        if a < 0xD800 || a > 0xDFFF {
            assert(rest.subrange(2, rest.len() as int) =~= s@.subrange(i + 2, len as int));
            i = i + 2;
        } else if a <= 0xDBFF && len - i >= 4 {
            let b: u32 = (s[i + 2] as u32) * 256 + (s[i + 3] as u32);
            assert(b == utf16_unit(rest[2], rest[3]));
            if 0xDC00 <= b && b <= 0xDFFF {
                assert(rest.subrange(4, rest.len() as int) =~= s@.subrange(i + 4, len as int));
                i = i + 4;
            } else {
                return false;
            }
        } else {
            return false;
        }
    }
    proof {
        assert(s@.subrange(len as int, len as int) =~= Seq::<u8>::empty());
    }
    true
}

/// Whether the first Unicode full font name among `names`, if there is one, is well-formed
/// UTF-16BE.
pub fn first_full_name_is_decodable(names: &Vec<FaceName>) -> (res: bool)
    ensures
        res == first_full_name_decodable(names@.map_values(|n: FaceName| n@)),
{
    let ghost all = names@.map_values(|n: FaceName| n@);
    let mut j: usize = 0;
    proof {
        assert(all.subrange(0, all.len() as int) =~= all);
    }
    while j < names.len()
        invariant
            j <= names@.len(),
            all == names@.map_values(|n: FaceName| n@),
            first_full_name_decodable(all) == first_full_name_decodable(
                all.subrange(j as int, all.len() as int),
            ),
        decreases names@.len() - j,
    {
        let ghost rest = all.subrange(j as int, all.len() as int);
        assert(rest[0] == names@[j as int]@);
        if names[j].name_id == 4 && names[j].is_unicode {
            return is_valid_utf16_be(&names[j].name);
        }
        assert(rest.drop_first() =~= all.subrange(j + 1, all.len() as int));
        j = j + 1;
    }
    true
}

/// The message `failed to load font '<font_name>': <reason>`.
fn load_error(font_name: &str, reason: &str) -> (res: String)
    ensures
        res@ == "failed to load font '"@ + font_name@ + "': "@ + reason@,
{
    let mut message = "failed to load font '".to_owned();
    message.append(font_name);
    message.append("': ");
    message.append(reason);
    message
}

/// Load the font `font_name` from the bytes of its file. A font whose first Unicode full name is
/// not well-formed UTF-16BE is refused with `failed to load font '<font_name>': the font's full
/// name is not valid UTF-16`; when fontdue cannot parse the bytes, the error is
/// `failed to load font '<font_name>': <fontdue's message>`.
pub fn load_font_from_bytes(font_name: &str, bytes: Vec<u8>) -> (res: Result<fontdue::Font, String>)
    ensures
        res is Ok <==> font_name_decodable(bytes@) && spec_font_parse_error(bytes@) is None,
        res matches Err(m) ==> m@ == "failed to load font '"@ + font_name@ + "': "@ + (
        if font_name_decodable(bytes@) {
            spec_font_parse_error(bytes@)->Some_0
        } else {
            "the font's full name is not valid UTF-16"@
        }),
{
    match face_names(&bytes) {
        Some(names) => {
            if !first_full_name_is_decodable(&names) {
                return Err(load_error(font_name, "the font's full name is not valid UTF-16"));
            }
        },
        None => {},
    }
    match font_from_bytes(bytes) {
        Ok(font) => Ok(font),
        Err(err) => Err(load_error(font_name, err)),
    }
}

/// The column of bitmap index `idx` in a bitmap `width` pixels wide, as a `u32`.
pub open spec fn column(idx: int, width: usize) -> u32 {
    (idx % (width as int)) as u32
}

/// The row of bitmap index `idx` in a bitmap `width` pixels wide, as a `u32`.
pub open spec fn row(idx: int, width: usize) -> u32 {
    (idx / (width as int)) as u32
}

/// The pixels `(x, y, alpha)` of a glyph whose coverage bitmap, `width` pixels wide and stored
/// row by row, is `coverage` and whose top left corner is at `(x, y)`: one pixel for each
/// bitmap entry that is not fully transparent, in bitmap order.
pub open spec fn spec_glyph_pixels(x: u32, y: u32, width: usize, coverage: Seq<u8>) -> Seq<
    (u32, u32, u8),
>
    decreases coverage.len(),
{
    if coverage.len() == 0 {
        Seq::empty()
    } else {
        let idx = coverage.len() - 1;
        let before = spec_glyph_pixels(x, y, width, coverage.drop_last());
        if coverage[idx] == 0 {
            before
        } else {
            before.push(
                ((x + column(idx, width)) as u32, (y + row(idx, width)) as u32, coverage[idx]),
            )
        }
    }
}

/// Whether every visible entry of the bitmap can be placed: the bitmap has a width, and the
/// coordinates fit in a `u32`.
pub open spec fn glyph_pixels_fit(x: u32, y: u32, width: usize, coverage: Seq<u8>) -> bool {
    forall|idx: int|
        0 <= idx < coverage.len() && #[trigger] coverage[idx] != 0 ==> {
            &&& width > 0
            &&& x + column(idx, width) <= u32::MAX
            &&& y + row(idx, width) <= u32::MAX
        }
}

/// Whether the glyph bitmap can be placed at `(x, y)` (see `glyph_pixels`).
pub fn can_place_glyph(x: u32, y: u32, width: usize, coverage: &Vec<u8>) -> (res: bool)
    ensures
        res == glyph_pixels_fit(x, y, width, coverage@),
{
    let mut idx: usize = 0;
    while idx < coverage.len()
        invariant
            idx <= coverage@.len(),
            forall|j: int|
                0 <= j < idx && #[trigger] coverage@[j] != 0 ==> {
                    &&& width > 0
                    &&& x + column(j, width) <= u32::MAX
                    &&& y + row(j, width) <= u32::MAX
                },
        decreases coverage@.len() - idx,
    {
        if coverage[idx] != 0 {
            if width == 0 {
                return false;
            }
            let col: u32 = (idx % width) as u32;
            let r: u32 = (idx / width) as u32;
            if col > u32::MAX - x || r > u32::MAX - y {
                assert(coverage@[idx as int] != 0);
                return false;
            }
        }
        idx = idx + 1;
    }
    true
}

/// The pixels `(x, y, alpha)` of a rasterized glyph: its coverage bitmap, `width` pixels wide
/// and stored row by row, placed with its top left corner at `(x, y)`. Fully transparent pixels
/// are left out.
pub fn glyph_pixels(x: u32, y: u32, width: usize, coverage: &Vec<u8>) -> (res: Vec<(u32, u32, u8)>)
    requires
        glyph_pixels_fit(x, y, width, coverage@),
    ensures
        res@ == spec_glyph_pixels(x, y, width, coverage@),
{
    let mut res: Vec<(u32, u32, u8)> = Vec::new();
    let mut idx: usize = 0;
    proof {
        assert(coverage@.subrange(0, 0) =~= Seq::<u8>::empty());
    }
    while idx < coverage.len()
        invariant
            idx <= coverage@.len(),
            glyph_pixels_fit(x, y, width, coverage@),
            res@ == spec_glyph_pixels(x, y, width, coverage@.subrange(0, idx as int)),
        decreases coverage@.len() - idx,
    {
        let alpha = coverage[idx];
        proof {
            assert(coverage@.subrange(0, idx + 1).drop_last() =~= coverage@.subrange(0, idx as int));
        }
        if alpha != 0 {
            assert(coverage@[idx as int] != 0);
            let px: u32 = x + ((idx % width) as u32);
            let py: u32 = y + ((idx / width) as u32);
            res.push((px, py, alpha));
        }
        idx = idx + 1;
    }
    proof {
        assert(coverage@.subrange(0, coverage@.len() as int) =~= coverage@);
    }
    res
}

/// The pixel that the visible bitmap entry `idx` becomes: column `idx % width` and row
/// `idx / width` of the glyph's box, moved to `(x, y)`, with the entry's coverage.
pub open spec fn placed_pixel(x: u32, y: u32, width: usize, coverage: Seq<u8>, idx: int) -> (
    u32,
    u32,
    u8,
) {
    ((x + idx % (width as int)) as u32, (y + idx / (width as int)) as u32, coverage[idx])
}

/// Every visible entry of a glyph bitmap becomes the pixel at its column and row, and nothing
/// else does: every pixel is some visible entry `idx` placed at
/// `(x + idx % width, y + idx / width)` with its coverage, so it lies inside the glyph's
/// `width`-wide box; and every visible entry placed so is among the pixels.
pub proof fn lemma_glyph_pixels_placement(x: u32, y: u32, width: usize, coverage: Seq<u8>)
    requires
        0 < width <= u32::MAX,
        coverage.len() <= u32::MAX,
        glyph_pixels_fit(x, y, width, coverage),
    ensures
        forall|k: int|
            0 <= k < spec_glyph_pixels(x, y, width, coverage).len() ==> {
                let p = #[trigger] spec_glyph_pixels(x, y, width, coverage)[k];
                &&& x <= p.0 < x + width
                &&& y <= p.1
                &&& p.2 != 0
                &&& exists|idx: int|
                    0 <= idx < coverage.len() && coverage[idx] != 0 && p == #[trigger] placed_pixel(
                        x,
                        y,
                        width,
                        coverage,
                        idx,
                    )
            },
        forall|idx: int|
            0 <= idx < coverage.len() && coverage[idx] != 0 ==> spec_glyph_pixels(
                x,
                y,
                width,
                coverage,
            ).contains(#[trigger] placed_pixel(x, y, width, coverage, idx)),
    decreases coverage.len(),
{
    let res = spec_glyph_pixels(x, y, width, coverage);
    if coverage.len() > 0 {
        let prev = coverage.drop_last();
        let last = coverage.len() - 1;
        assert(glyph_pixels_fit(x, y, width, prev)) by {
            assert forall|idx: int| 0 <= idx < prev.len() && #[trigger] prev[idx] != 0 implies {
                &&& width > 0
                &&& x + column(idx, width) <= u32::MAX
                &&& y + row(idx, width) <= u32::MAX
            } by {
                assert(coverage[idx] == prev[idx]);
            }
        }
        lemma_glyph_pixels_placement(x, y, width, prev);
        let before = spec_glyph_pixels(x, y, width, prev);
        assert forall|idx: int| 0 <= idx < prev.len() implies #[trigger] placed_pixel(
            x,
            y,
            width,
            prev,
            idx,
        ) == placed_pixel(x, y, width, coverage, idx) by {
            assert(prev[idx] == coverage[idx]);
        }
        if coverage[last] != 0 {
            assert(0 <= last % (width as int) < width);
            assert(column(last, width) as int == last % (width as int));
            assert(row(last, width) as int == last / (width as int)) by {
                vstd::arithmetic::div_mod::lemma_div_is_ordered_by_denominator(last, 1, width as int);
            }
            assert(res == before.push(placed_pixel(x, y, width, coverage, last)));
            assert forall|k: int| 0 <= k < res.len() implies {
                let p = #[trigger] res[k];
                &&& x <= p.0 < x + width
                &&& y <= p.1
                &&& p.2 != 0
                &&& exists|idx: int|
                    0 <= idx < coverage.len() && coverage[idx] != 0 && p == #[trigger] placed_pixel(
                        x,
                        y,
                        width,
                        coverage,
                        idx,
                    )
            } by {
                if k < before.len() {
                    assert(res[k] == before[k]);
                    let p = before[k];
                    let idx = choose|idx: int|
                        0 <= idx < prev.len() && prev[idx] != 0 && p == #[trigger] placed_pixel(
                            x,
                            y,
                            width,
                            prev,
                            idx,
                        );
                    assert(placed_pixel(x, y, width, prev, idx) == placed_pixel(x, y, width, coverage, idx));
                } else {
                    assert(res[k] == placed_pixel(x, y, width, coverage, last));
                }
            }
            assert forall|idx: int| 0 <= idx < coverage.len() && coverage[idx] != 0 implies res.contains(
                #[trigger] placed_pixel(x, y, width, coverage, idx),
            ) by {
                if idx < last {
                    assert(prev[idx] == coverage[idx]);
                    assert(placed_pixel(x, y, width, prev, idx) == placed_pixel(x, y, width, coverage, idx));
                    assert(before.contains(placed_pixel(x, y, width, prev, idx)));
                    let j = choose|j: int| 0 <= j < before.len() && before[j] == placed_pixel(x, y, width, prev, idx);
                    assert(res[j] == before[j]);
                } else {
                    assert(res[before.len() as int] == placed_pixel(x, y, width, coverage, idx));
                }
            }
        } else {
            assert(res == before);
            assert forall|k: int| 0 <= k < res.len() implies {
                let p = #[trigger] res[k];
                &&& x <= p.0 < x + width
                &&& y <= p.1
                &&& p.2 != 0
                &&& exists|idx: int|
                    0 <= idx < coverage.len() && coverage[idx] != 0 && p == #[trigger] placed_pixel(
                        x,
                        y,
                        width,
                        coverage,
                        idx,
                    )
            } by {
                let p = before[k];
                let idx = choose|idx: int|
                    0 <= idx < prev.len() && prev[idx] != 0 && p == #[trigger] placed_pixel(
                        x,
                        y,
                        width,
                        prev,
                        idx,
                    );
                assert(placed_pixel(x, y, width, prev, idx) == placed_pixel(x, y, width, coverage, idx));
            }
            assert forall|idx: int| 0 <= idx < coverage.len() && coverage[idx] != 0 implies res.contains(
                #[trigger] placed_pixel(x, y, width, coverage, idx),
            ) by {
                assert(idx != last);
                assert(prev[idx] == coverage[idx]);
                assert(placed_pixel(x, y, width, prev, idx) == placed_pixel(x, y, width, coverage, idx));
            }
        }
    }
}

} // verus!
