//! Rasterizing SVG markup to PNG with `resvg`. What the image shows takes
//! the whole of `usvg`, `resvg` and `tiny-skia` to say, so it is named, as a
//! function of the markup, the font and the canvas size; the PNG header that
//! carries the size is stated.

use resvg::tiny_skia::{Pixmap, Transform};
use resvg::usvg::{ImageKind, Options, Tree};
use vstd::prelude::*;

verus! {

/// An image that markup refers to (`usvg::ImageKind`).
#[verifier::external_type_specification]
#[verifier::external_body]
pub struct ExImageKind(resvg::usvg::ImageKind);

/// The eight bytes every PNG file starts with.
pub open spec fn png_signature() -> Seq<u8> {
    seq![137u8, 80u8, 78u8, 71u8, 13u8, 10u8, 26u8, 10u8]
}

/// A number as four big-endian bytes.
pub open spec fn be_u32(x: u32) -> Seq<u8> {
    seq![
        (x / 0x100_0000) as u8,
        ((x / 0x1_0000) % 0x100) as u8,
        ((x / 0x100) % 0x100) as u8,
        (x % 0x100) as u8,
    ]
}

/// `bytes` starts like a PNG file of `width` by `height` pixels: the
/// signature, then the header chunk (length 13, `IHDR`) with the two sides.
pub open spec fn png_of_size(bytes: Seq<u8>, width: u32, height: u32) -> bool {
    &&& bytes.len() >= 24
    &&& bytes.take(8) == png_signature()
    &&& bytes.subrange(8, 16) == seq![0u8, 0u8, 0u8, 13u8, 73u8, 72u8, 68u8, 82u8]
    &&& bytes.subrange(16, 20) == be_u32(width)
    &&& bytes.subrange(20, 24) == be_u32(height)
}

/// Whether `usvg::Tree::from_str` accepts the markup `svg` under options
/// whose default font family is `family`, whose font database holds just the
/// font in `font`, and which skip images named by a path.
pub uninterp spec fn svg_tree_parses(svg: Seq<char>, family: Seq<char>, font: Seq<u8>) -> bool;

/// The PNG file that [`rasterize_svg`] makes of the markup `svg`, drawn in
/// the font `font` (default family `family`) on a `width` by `height` canvas.
pub uninterp spec fn rendered_png(
    svg: Seq<char>,
    family: Seq<char>,
    font: Seq<u8>,
    width: u32,
    height: u32,
) -> Seq<u8>;

/// Markup may take images from `data:` URLs only: one named by a path is
/// not loaded, so what is drawn depends on the markup alone, not on files.
pub(crate) fn skip_file_image(href: &str) -> (r: Option<ImageKind>)
    ensures
        r is None,
{
    None
}

/// Parses `svg` with `usvg::Tree::from_str` (default options, except that
/// the default font family is `family`, the font database holds just the
/// font in `font`, and images named by a path are skipped), draws it with
/// `resvg::render` on a blank `tiny_skia::Pixmap::new(width, height)`, and
/// encodes that with `Pixmap::encode_png`.
///
/// The parse refuses markup that is not well-formed XML, that has no valid
/// size, or that has too many nodes; this depends on the arguments alone, and
/// is named by [`svg_tree_parses`]. The size bounds make the pixmap, and the
/// encoder writes into memory pixel data of exactly the length its header
/// announces, so neither of those steps fails. Nothing in these steps is
/// random or read from the machine (no clock, no system fonts, no files), so
/// the file is named by [`rendered_png`]. The encoder writes the signature
/// and then the header chunk with the width and height.
#[verifier::external_body]
pub(crate) fn rasterize_svg(
    svg: &str,
    family: &str,
    font: Vec<u8>,
    width: u32,
    height: u32,
) -> (r: Result<Vec<u8>, String>)
    requires
        0 < width,
        0 < height,
        4 * width <= i32::MAX,
        4 * width * height <= usize::MAX,
    ensures
        r is Ok <==> svg_tree_parses(svg@, family@, font@),
        r matches Ok(png) ==> png@ == rendered_png(svg@, family@, font@, width, height),
        r matches Ok(png) ==> png_of_size(png@, width, height),
{
    let mut opt = Options::default();
    opt.font_family = family.to_string();
    opt.fontdb_mut().load_font_data(font);
    opt.image_href_resolver.resolve_string = Box::new(|href, _| skip_file_image(href));
    let tree = Tree::from_str(svg, &opt).map_err(|e| e.to_string())?;
    let mut pixmap = Pixmap::new(width, height).ok_or_else(String::new)?;
    resvg::render(&tree, Transform::default(), &mut pixmap.as_mut());
    pixmap.encode_png().map_err(|e| e.to_string())
}

} // verus!
