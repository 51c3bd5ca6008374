use vstd::prelude::*;
use crate::http::{decimal, decimal_string};
use crate::text::concat3;

verus! {

#[verifier::external_type_specification]
#[verifier::external_body]
pub struct ExSvgTree(resvg::usvg::Tree);

#[verifier::external_type_specification]
#[verifier::external_body]
pub struct ExPixmap(resvg::tiny_skia::Pixmap);

/// An icon drawn from an SVG file.
#[derive(Debug)]
pub struct RenderedIcon {
    pub width: u32,
    pub height: u32,
    pub rgba: Vec<u8>,
}

/// A colour channel divided by its alpha, rounded, at most 255.
pub open spec fn unpremultiplied(value: u8, alpha: u8) -> u8 {
    let v = (value as int * 255 + alpha as int / 2) / alpha as int;
    if v > 255 {
        255u8
    } else {
        v as u8
    }
}

pub fn unpremultiply_channel(value: u8, alpha: u32) -> (r: u8)
    requires
        1 <= alpha <= 255,
    ensures
        r == unpremultiplied(value, alpha as u8),
{
    let v: u32 = (value as u32 * 255 + alpha / 2) / alpha;
    if v > 255 {
        255
    } else {
        v as u8
    }
}

/// One channel byte of a premultiplied RGBA buffer after undoing the
/// premultiplication: a transparent pixel becomes black, an opaque one stays.
pub open spec fn straight_byte(px: Seq<u8>, i: int) -> u8 {
    let base = i - i % 4;
    let alpha = px[base + 3];
    if i % 4 == 3 || alpha == 255 {
        px[i]
    } else if alpha == 0 {
        0u8
    } else {
        unpremultiplied(px[i], alpha)
    }
}

/// Turns premultiplied RGBA pixels into straight RGBA (a trailing partial
/// pixel is left alone).
pub fn unpremultiply_rgba(rgba: &mut Vec<u8>)
    ensures
        final(rgba)@.len() == old(rgba)@.len(),
        forall|i: int|
            0 <= i < old(rgba)@.len() - old(rgba)@.len() % 4 ==> #[trigger] final(rgba)@[i] == straight_byte(
                old(rgba)@,
                i,
            ),
        forall|i: int|
            old(rgba)@.len() - old(rgba)@.len() % 4 <= i < old(rgba)@.len() ==> #[trigger] final(rgba)@[i]
                == old(rgba)@[i],
{
    let ghost orig = rgba@;
    let len = rgba.len();
    let n = len / 4;
    let mut p: usize = 0;
    while p < n
        invariant
            p <= n,
            len == orig.len(),
            n == orig.len() / 4,
            n * 4 <= orig.len(),
            rgba@.len() == orig.len(),
            forall|i: int| 0 <= i < p * 4 ==> #[trigger] rgba@[i] == straight_byte(orig, i),
            forall|i: int| p * 4 <= i < orig.len() ==> #[trigger] rgba@[i] == orig[i],
        decreases n - p,
    {
        assert(p * 4 + 4 <= n * 4) by (nonlinear_arith)
            requires
                p < n,
        ;
        let base = p * 4;
        let alpha = rgba[base + 3];
        if alpha == 0 {
            rgba.set(base, 0);
            rgba.set(base + 1, 0);
            rgba.set(base + 2, 0);
        } else if alpha != 255 {
            let a = alpha as u32;
            let r = unpremultiply_channel(rgba[base], a);
            rgba.set(base, r);
            let g = unpremultiply_channel(rgba[base + 1], a);
            rgba.set(base + 1, g);
            let b = unpremultiply_channel(rgba[base + 2], a);
            rgba.set(base + 2, b);
        }
        proof {
            assert forall|i: int| base <= i < base + 4 implies #[trigger] rgba@[i] == straight_byte(orig, i) by {
                assert(i - i % 4 == base);
            }
        }
        p = p + 1;
    }
}

/// The message with which `usvg::Tree::from_data`, under default options,
/// refuses a document, or `None` when it parses it.
pub uninterp spec fn svg_parse_error(data: Seq<u8>) -> Option<Seq<char>>;

/// The SVG document that a parsed tree was read from.
pub uninterp spec fn svg_document(tree: resvg::usvg::Tree) -> Seq<u8>;

/// Parses an SVG document with default options (`usvg::Tree::from_data`);
/// whether it fails, and with which message, is named by
/// `svg_parse_error`; a tree it gives is the tree of `data`. What the tree
/// holds is not stated beyond that: it may take images that the document
/// names from disk.
#[verifier::external_body]
fn parse_svg(data: &[u8]) -> (r: Result<resvg::usvg::Tree, String>)
    ensures
        match svg_parse_error(data@) {
            Some(m) => r matches Err(e) && e@ == m,
            None => r matches Ok(t) && svg_document(t) == data@,
        },
{
    resvg::usvg::Tree::from_data(data, &resvg::usvg::Options::default()).map_err(|err| err.to_string())
}

/// The whole-pixel size, width then height, that usvg under default
/// options gives a document (`Tree::size` rounded by `to_int_size`); it
/// comes from the root element alone.
pub uninterp spec fn svg_int_size(document: Seq<u8>) -> (u32, u32);

/// The pixel size of a parsed SVG: the size named for its document, which
/// the source keeps at least one pixel on each side.
#[verifier::external_body]
fn svg_pixel_size(tree: &resvg::usvg::Tree) -> (r: (u32, u32))
    ensures
        r == svg_int_size(svg_document(*tree)),
        r.0 >= 1,
        r.1 >= 1,
{
    let size = tree.size().to_int_size();
    (size.width(), size.height())
}

/// The premultiplied RGBA bytes that a pixmap holds, row by row.
pub uninterp spec fn pixmap_data(pixmap: resvg::tiny_skia::Pixmap) -> Seq<u8>;

/// Allocates a transparent pixmap (`tiny_skia::Pixmap::new`): it exists
/// exactly when both sides are non-zero, a row of four bytes a pixel fits in
/// an `i32`, and the whole buffer fits in memory's address range; it holds
/// four zero bytes for each pixel.
#[verifier::external_body]
fn new_pixmap(width: u32, height: u32) -> (r: Option<resvg::tiny_skia::Pixmap>)
    ensures
        r is Some <==> (width > 0 && height > 0 && width * 4 <= i32::MAX && width * height * 4 <= usize::MAX),
        r matches Some(p) ==> pixmap_data(p).len() == width * height * 4 && forall|i: int|
            0 <= i < pixmap_data(p).len() ==> #[trigger] pixmap_data(p)[i] == 0,
{
    resvg::tiny_skia::Pixmap::new(width, height)
}

/// Whether `after` is a drawing that resvg may make of `document`, at the
/// document's own size with the identity transform, over the pixels
/// `before`. It is a relation, not a function: the tree may hold images
/// read from disk.
pub uninterp spec fn svg_drawing(document: Seq<u8>, before: Seq<u8>, after: Seq<u8>) -> bool;

/// Draws the tree onto the pixmap (`resvg::render` with the identity
/// transform), in place: the pixmap keeps its number of bytes and ends up
/// holding a drawing of the tree's document over what it held.
#[verifier::external_body]
fn render_tree(tree: &resvg::usvg::Tree, pixmap: &mut resvg::tiny_skia::Pixmap)
    ensures
        pixmap_data(*final(pixmap)).len() == pixmap_data(*old(pixmap)).len(),
        svg_drawing(svg_document(*tree), pixmap_data(*old(pixmap)), pixmap_data(*final(pixmap))),
{
    resvg::render(tree, resvg::tiny_skia::Transform::identity(), &mut pixmap.as_mut());
}

/// The bytes that a pixmap holds (`Pixmap::take`).
#[verifier::external_body]
fn pixmap_bytes(pixmap: resvg::tiny_skia::Pixmap) -> (r: Vec<u8>)
    ensures
        r@ == pixmap_data(pixmap),
{
    pixmap.take()
}

/// The message for a pixmap that could not be allocated.
pub open spec fn pixmap_error(width: u32, height: u32) -> Seq<char> {
    "failed to allocate "@ + decimal(width as nat) + "x"@ + decimal(height as nat) + " tray pixmap"@
}

/// The message for a pixmap of this size that could not be allocated.
pub fn pixmap_failure(width: u32, height: u32) -> (m: String)
    ensures
        m@ == pixmap_error(width, height),
{
    let w = decimal_string(width as u64);
    let h = decimal_string(height as u64);
    let head = concat3("failed to allocate ", w.as_str(), "x");
    concat3(head.as_str(), h.as_str(), " tray pixmap")
}

/// An icon of the given size from premultiplied RGBA bytes, made straight.
pub fn icon_from_pixels(width: u32, height: u32, pixels: Vec<u8>) -> (icon: RenderedIcon)
    ensures
        icon.width == width,
        icon.height == height,
        icon.rgba@.len() == pixels@.len(),
        forall|i: int|
            0 <= i < pixels@.len() - pixels@.len() % 4 ==> #[trigger] icon.rgba@[i] == straight_byte(pixels@, i),
        forall|i: int|
            pixels@.len() - pixels@.len() % 4 <= i < pixels@.len() ==> #[trigger] icon.rgba@[i] == pixels@[i],
{
    let mut rgba = pixels;
    unpremultiply_rgba(&mut rgba);
    RenderedIcon { width, height, rgba }
}

/// A pixmap of this size can be allocated.
pub open spec fn pixmap_fits(width: u32, height: u32) -> bool {
    width > 0 && height > 0 && width * 4 <= i32::MAX && width * height * 4 <= usize::MAX
}

/// Premultiplied pixels made straight, byte by byte.
pub open spec fn straight_pixels(px: Seq<u8>) -> Seq<u8> {
    Seq::new(
        px.len(),
        |i: int|
            if i < px.len() - px.len() % 4 {
                straight_byte(px, i)
            } else {
                px[i]
            },
    )
}

/// The bytes of a transparent pixmap of this size.
pub open spec fn blank_pixels(width: u32, height: u32) -> Seq<u8> {
    Seq::new((width * height * 4) as nat, |i: int| 0u8)
}

/// What rendering `svg` gives: the parser's message when it refuses the
/// document; else, at the document's own size (at least one pixel a side),
/// the allocation message when a pixmap of that size cannot be had, and
/// otherwise an icon of that size whose bytes are a drawing of the document
/// over a transparent pixmap, made straight.
pub open spec fn render_outcome(svg: Seq<u8>, r: Result<RenderedIcon, String>) -> bool {
    match svg_parse_error(svg) {
        Some(m) => r matches Err(e) && e@ == m,
        None => {
            let (w, h) = svg_int_size(svg);
            &&& w >= 1
            &&& h >= 1
            &&& if pixmap_fits(w, h) {
                r matches Ok(icon) && icon.width == w && icon.height == h && exists|px: Seq<u8>|
                    px.len() == w * h * 4 && #[trigger] svg_drawing(svg, blank_pixels(w, h), px) && icon.rgba@
                        == straight_pixels(px)
            } else {
                r matches Err(e) && e@ == pixmap_error(w, h)
            }
        },
    }
}

/// Renders an SVG document into a straight-alpha RGBA icon at the
/// document's own pixel size.
pub fn render_svg_icon(svg: &[u8]) -> (r: Result<RenderedIcon, String>)
    ensures
        render_outcome(svg@, r),
{
    let tree = match parse_svg(svg) {
        Ok(tree) => tree,
        Err(err) => {
            return Err(err);
        },
    };
    let (width, height) = svg_pixel_size(&tree);
    let mut pixmap = match new_pixmap(width, height) {
        Some(pixmap) => pixmap,
        None => {
            return Err(pixmap_failure(width, height));
        },
    };
    let ghost blank = pixmap_data(pixmap);
    assert(blank =~= blank_pixels(width, height));
    render_tree(&tree, &mut pixmap);
    let pixels = pixmap_bytes(pixmap);
    let icon = icon_from_pixels(width, height, pixels);
    assert(icon.rgba@ =~= straight_pixels(pixels@));
    assert(svg_drawing(svg@, blank_pixels(width, height), pixels@));
    Ok(icon)
}

/// The SVG documents of the tray icons.
pub struct IconSvgs {
    pub copper_server: Vec<u8>,
    pub pin_dark: Vec<u8>,
    pub pin_light: Vec<u8>,
    pub pin_off_dark: Vec<u8>,
    pub pin_off_light: Vec<u8>,
}

impl IconSvgs {
    /// The document of the pin glyph for a pinned or unpinned taskbar, in its
    /// dark or light variant.
    pub open spec fn pin_spec(&self, pinned: bool, dark_variant: bool) -> Seq<u8> {
        if pinned {
            if dark_variant {
                self.pin_dark@
            } else {
                self.pin_light@
            }
        } else if dark_variant {
            self.pin_off_dark@
        } else {
            self.pin_off_light@
        }
    }

    pub fn pin_svg(&self, pinned: bool, dark_variant: bool) -> (svg: &[u8])
        ensures
            svg@ == self.pin_spec(pinned, dark_variant),
    {
        if pinned {
            if dark_variant {
                self.pin_dark.as_slice()
            } else {
                self.pin_light.as_slice()
            }
        } else if dark_variant {
            self.pin_off_dark.as_slice()
        } else {
            self.pin_off_light.as_slice()
        }
    }
}

/// The daemon's own tray icon.
pub fn copper_server_icon(svgs: &IconSvgs) -> (r: Result<RenderedIcon, String>)
    ensures
        render_outcome(svgs.copper_server@, r),
{
    render_svg_icon(svgs.copper_server.as_slice())
}

/// The display manager's tray icon: a pin, upright while the taskbar is
/// pinned, in the variant that suits the theme.
pub fn windows_display_pin_icon(svgs: &IconSvgs, pinned: bool, dark_variant: bool) -> (r: Result<
    RenderedIcon,
    String,
>)
    ensures
        render_outcome(svgs.pin_spec(pinned, dark_variant), r),
{
    render_svg_icon(svgs.pin_svg(pinned, dark_variant))
}

} // verus!
