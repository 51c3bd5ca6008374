use vstd::prelude::*;
use crate::text::{concat2, owned};
use crate::host_extensions::WINDOWS_DISPLAY_MANAGER_ID;

verus! {

/// Why a tray icon could not be set up.
#[derive(Debug)]
pub enum TrayError {
    Init(String),
}

impl TrayError {
    pub open spec fn message(&self) -> Seq<char> {
        match self {
            TrayError::Init(m) => "tray initialization failed: "@ + m@,
        }
    }

    pub fn to_string(&self) -> (s: String)
        ensures
            s@ == self.message(),
    {
        match self {
            TrayError::Init(m) => concat2("tray initialization failed: ", m.as_str()),
        }
    }
}

/// What a tray menu entry does when chosen.
#[derive(Debug)]
pub enum TrayMenuAction {
    /// Open the settings UI at this address.
    OpenUi(String),
    /// Stop the daemon.
    Exit,
}

/// An entry of a tray menu: a label, an entry that opens the settings UI at
/// an address, or the exit entry. `S` is `Seq<char>` for the entries a
/// backend has shown.
#[derive(Debug)]
pub enum TrayEntry<S> {
    Label(S),
    OpenUi(S, S),
    Exit(S),
}

/// The entry a menu item with this label and action shows.
pub open spec fn item_entry(label: Seq<char>, action: TrayMenuAction) -> TrayEntry<Seq<char>> {
    match action {
        TrayMenuAction::OpenUi(url) => TrayEntry::OpenUi(label, url@),
        TrayMenuAction::Exit => TrayEntry::Exit(label),
    }
}

/// A tray backend: it shows labels and menu entries, in the order added.
/// A call that fails shows nothing.
pub trait TrayOps {
    /// The entries shown so far. A backend that keeps track of its entries
    /// gives them here; the default knows of none.
    closed spec fn entries(&self) -> Seq<TrayEntry<Seq<char>>> {
        Seq::empty()
    }

    /// The message with which the backend last refused a call. The default
    /// knows of none.
    closed spec fn failure(&self) -> Seq<char> {
        Seq::empty()
    }

    fn add_label(&mut self, label: &str) -> (r: Result<(), String>)
        ensures
            r is Ok ==> final(self).entries() == old(self).entries().push(TrayEntry::Label(label@)),
            r is Err ==> final(self).entries() == old(self).entries(),
            r matches Err(m) ==> final(self).failure() == m@,
    ;

    fn add_menu_item(&mut self, label: &str, action: TrayMenuAction) -> (r: Result<(), String>)
        ensures
            r is Ok ==> final(self).entries() == old(self).entries().push(item_entry(label@, action)),
            r is Err ==> final(self).entries() == old(self).entries(),
            r matches Err(m) ==> final(self).failure() == m@,
    ;
}

/// The main tray menu for the settings UI at `ui_url`: the status label,
/// the entry that opens the UI, and the exit entry.
pub open spec fn main_menu(ui_url: Seq<char>) -> Seq<TrayEntry<Seq<char>>> {
    seq![
        TrayEntry::Label("Daemon is running"@),
        TrayEntry::OpenUi("Open Copper UI"@, ui_url),
        TrayEntry::Exit("Exit"@),
    ]
}

/// Fills the main tray menu: a status label, an entry that opens the
/// settings UI at `ui_url`, and an exit entry. A backend failure stops the
/// setup and is reported as an initialization error with the backend's
/// message.
pub fn configure_tray<T: TrayOps>(tray: &mut T, ui_url: String) -> (r: Result<(), TrayError>)
    ensures
        r is Ok ==> final(tray).entries() == old(tray).entries() + main_menu(ui_url@),
        r matches Err(e) ==> e matches TrayError::Init(m) && m@ == final(tray).failure(),
        r is Err ==> exists|k: int|
            0 <= k < 3 && final(tray).entries() == old(tray).entries() + #[trigger] main_menu(ui_url@).take(k),
{
    let ghost start = tray.entries();
    let ghost menu = main_menu(ui_url@);
    proof {
        reveal_strlit("Daemon is running");
        reveal_strlit("Open Copper UI");
        reveal_strlit("Exit");
    }
    match tray.add_label("Daemon is running") {
        Ok(()) => {},
        Err(e) => {
            assert(tray.entries() == start + menu.take(0));
            return Err(TrayError::Init(e));
        },
    }
    assert(tray.entries() =~= start + menu.take(1));
    match tray.add_menu_item("Open Copper UI", TrayMenuAction::OpenUi(ui_url)) {
        Ok(()) => {},
        Err(e) => {
            return Err(TrayError::Init(e));
        },
    }
    assert(tray.entries() =~= start + menu.take(2));
    match tray.add_menu_item("Exit", TrayMenuAction::Exit) {
        Ok(()) => {},
        Err(e) => {
            return Err(TrayError::Init(e));
        },
    }
    assert(tray.entries() =~= start + menu);
    Ok(())
}

/// The bytes of an opaque green icon.
pub open spec fn green_pixel(i: int) -> u8 {
    if i % 4 == 0 {
        37u8
    } else if i % 4 == 1 {
        178u8
    } else if i % 4 == 2 {
        82u8
    } else {
        255u8
    }
}

/// A plain green RGBA icon of the given size.
pub fn solid_green_icon_rgba(width: usize, height: usize) -> (data: Vec<u8>)
    requires
        width * height * 4 <= usize::MAX,
    ensures
        data@.len() == width * height * 4,
        forall|i: int| 0 <= i < data@.len() ==> #[trigger] data@[i] == green_pixel(i),
{
    let n = width * height;
    let mut data: Vec<u8> = Vec::new();
    let mut p: usize = 0;
    while p < n
        invariant
            p <= n,
            n == width * height,
            n * 4 <= usize::MAX,
            data@.len() == p * 4,
            forall|i: int| 0 <= i < data@.len() ==> #[trigger] data@[i] == green_pixel(i),
        decreases n - p,
    {
        data.push(37);
        data.push(178);
        data.push(82);
        data.push(255);
        p = p + 1;
    }
    data
}

/// Side of the pixel-art tray icons.
pub const ICON_SIZE: i32 = 16;

/// The colour byte written at buffer position `i` by a paint of `color`.
pub open spec fn color_byte(color: [u8; 4], i: int) -> u8 {
    color@[i % 4]
}

/// The pixel at `(x, y)` of a 16x16 RGBA buffer, painted; positions off
/// the icon are ignored.
pub fn set_pixel(rgba: &mut Vec<u8>, x: i32, y: i32, color: [u8; 4])
    requires
        old(rgba)@.len() == 1024,
    ensures
        final(rgba)@.len() == 1024,
        forall|i: int|
            0 <= i < 1024 ==> #[trigger] final(rgba)@[i] == if 0 <= x < 16 && 0 <= y < 16 && i / 4 == y * 16 + x {
                color_byte(color, i)
            } else {
                old(rgba)@[i]
            },
{
    if x < 0 || x >= ICON_SIZE || y < 0 || y >= ICON_SIZE {
        return;
    }
    let idx = ((y * ICON_SIZE + x) * 4) as usize;
    rgba.set(idx, color[0]);
    rgba.set(idx + 1, color[1]);
    rgba.set(idx + 2, color[2]);
    rgba.set(idx + 3, color[3]);
    assert forall|i: int| 0 <= i < 1024 implies #[trigger] rgba@[i] == if 0 <= x < 16 && 0 <= y < 16 && i / 4
        == y * 16 + x {
        color_byte(color, i)
    } else {
        old(rgba)@[i]
    } by {
        if i / 4 == y * 16 + x {
            assert(idx <= i < idx + 4);
        }
    }
}

/// Whether pixel number `p` of a 16x16 icon lies in the rectangle.
pub open spec fn in_rect(p: int, left: int, top: int, right: int, bottom: int) -> bool {
    left <= p % 16 <= right && top <= p / 16 <= bottom
}

/// Paints the rectangle from `(left, top)` to `(right, bottom)` inclusive.
pub fn draw_rect(rgba: &mut Vec<u8>, left: i32, top: i32, right_inclusive: i32, bottom_inclusive: i32, color: [u8; 4])
    requires
        old(rgba)@.len() == 1024,
        0 <= left,
        0 <= top,
        right_inclusive < 16,
        bottom_inclusive < 16,
    ensures
        final(rgba)@.len() == 1024,
        forall|i: int|
            0 <= i < 1024 ==> #[trigger] final(rgba)@[i] == if in_rect(
                i / 4,
                left as int,
                top as int,
                right_inclusive as int,
                bottom_inclusive as int,
            ) {
                color_byte(color, i)
            } else {
                old(rgba)@[i]
            },
{
    let ghost orig = rgba@;
    let mut y = top;
    while y <= bottom_inclusive
        invariant
            top <= y <= bottom_inclusive + 1 || (y == top && top > bottom_inclusive),
            0 <= top,
            0 <= left,
            right_inclusive < 16,
            bottom_inclusive < 16,
            rgba@.len() == 1024,
            forall|i: int|
                0 <= i < 1024 ==> #[trigger] rgba@[i] == if in_rect(i / 4, left as int, top as int, right_inclusive as int, (y - 1) as int) {
                    color_byte(color, i)
                } else {
                    orig[i]
                },
        decreases bottom_inclusive - y + 1,
    {
        let ghost row_start = rgba@;
        let mut x = left;
        while x <= right_inclusive
            invariant
                left <= x <= right_inclusive + 1 || (x == left && left > right_inclusive),
                0 <= left,
                right_inclusive < 16,
                0 <= y < 16,
                rgba@.len() == 1024,
                forall|i: int|
                    0 <= i < 1024 ==> #[trigger] rgba@[i] == if i / 4 / 16 == y && left <= (i / 4) % 16 < x {
                        color_byte(color, i)
                    } else {
                        row_start[i]
                    },
            decreases right_inclusive - x + 1,
        {
            set_pixel(rgba, x, y, color);
            x = x + 1;
        }
        y = y + 1;
    }
}


/// Paints pixels `(x, y)` for `x_from <= x <= x_to` on row `y`; positions off
/// the icon are ignored.
fn paint_row(rgba: &mut Vec<u8>, y: i32, x_from: i32, x_to: i32, color: [u8; 4])
    requires
        old(rgba)@.len() == 1024,
        -64 <= y <= 64,
        -64 <= x_from,
        x_to <= 64,
    ensures
        final(rgba)@.len() == 1024,
        forall|i: int|
            0 <= i < 1024 ==> #[trigger] final(rgba)@[i] == if (i / 4) / 16 == y && x_from <= (i / 4) % 16
                <= x_to {
                color_byte(color, i)
            } else {
                old(rgba)@[i]
            },
{
    let ghost orig = rgba@;
    let mut x = x_from;
    while x <= x_to
        invariant
            x_from <= x <= x_to + 1 || (x == x_from && x_from > x_to),
            -64 <= y <= 64,
            -64 <= x_from,
            x_to <= 64,
            rgba@.len() == 1024,
            forall|i: int|
                0 <= i < 1024 ==> #[trigger] rgba@[i] == if (i / 4) / 16 == y && x_from <= (i / 4) % 16 < x {
                    color_byte(color, i)
                } else {
                    orig[i]
                },
        decreases x_to - x + 1,
    {
        set_pixel(rgba, x, y, color);
        x = x + 1;
    }
}

/// Paints pixels `(x, y)` for `y_from <= y <= y_to` in column `x`; positions
/// off the icon are ignored.
fn paint_column(rgba: &mut Vec<u8>, x: i32, y_from: i32, y_to: i32, color: [u8; 4])
    requires
        old(rgba)@.len() == 1024,
        -64 <= x <= 64,
        -64 <= y_from,
        y_to <= 64,
    ensures
        final(rgba)@.len() == 1024,
        forall|i: int|
            0 <= i < 1024 ==> #[trigger] final(rgba)@[i] == if (i / 4) % 16 == x && y_from <= (i / 4) / 16
                <= y_to {
                color_byte(color, i)
            } else {
                old(rgba)@[i]
            },
{
    let ghost orig = rgba@;
    let mut y = y_from;
    while y <= y_to
        invariant
            y_from <= y <= y_to + 1 || (y == y_from && y_from > y_to),
            -64 <= x <= 64,
            -64 <= y_from,
            y_to <= 64,
            rgba@.len() == 1024,
            forall|i: int|
                0 <= i < 1024 ==> #[trigger] rgba@[i] == if (i / 4) % 16 == x && y_from <= (i / 4) / 16 < y {
                    color_byte(color, i)
                } else {
                    orig[i]
                },
        decreases y_to - y + 1,
    {
        set_pixel(rgba, x, y, color);
        y = y + 1;
    }
}

/// Whether pixel number `p` lies in the downward triangle whose apex row
/// starts at `(center_x, top_y)`: row `k` below the top spans `center_x - k`
/// to `center_x + k`, for the first `size` rows.
pub open spec fn in_triangle_down(p: int, center_x: int, top_y: int, size: int) -> bool {
    let row = p / 16 - top_y;
    0 <= row < size && center_x - row <= p % 16 <= center_x + row
}

/// Whether pixel number `p` lies in the rightward triangle starting at
/// column `left_x`: column `k` spans `top_y - k / 2` to `top_y + k / 2 + 1`,
/// for the first `size` columns.
pub open spec fn in_triangle_right(p: int, left_x: int, top_y: int, size: int) -> bool {
    let col = p % 16 - left_x;
    0 <= col < size && top_y - col / 2 <= p / 16 <= top_y + col / 2 + 1
}

/// Paints the downward triangle of `size` rows below `(center_x, top_y)`.
pub fn draw_triangle_down(rgba: &mut Vec<u8>, center_x: i32, top_y: i32, size: i32, color: [u8; 4])
    requires
        old(rgba)@.len() == 1024,
        0 <= center_x < 16,
        0 <= top_y < 16,
        0 <= size <= 16,
    ensures
        final(rgba)@.len() == 1024,
        forall|i: int|
            0 <= i < 1024 ==> #[trigger] final(rgba)@[i] == if in_triangle_down(
                i / 4,
                center_x as int,
                top_y as int,
                size as int,
            ) {
                color_byte(color, i)
            } else {
                old(rgba)@[i]
            },
{
    let ghost orig = rgba@;
    let mut row: i32 = 0;
    while row < size
        invariant
            0 <= row <= size <= 16,
            0 <= center_x < 16,
            0 <= top_y < 16,
            rgba@.len() == 1024,
            forall|i: int|
                0 <= i < 1024 ==> #[trigger] rgba@[i] == if in_triangle_down(
                    i / 4,
                    center_x as int,
                    top_y as int,
                    row as int,
                ) {
                    color_byte(color, i)
                } else {
                    orig[i]
                },
        decreases size - row,
    {
        paint_row(rgba, top_y + row, center_x - row, center_x + row, color);
        row = row + 1;
    }
}

/// Paints the rightward triangle of `size` columns starting at
/// `(left_x, top_y)`.
pub fn draw_triangle_right(rgba: &mut Vec<u8>, left_x: i32, top_y: i32, size: i32, color: [u8; 4])
    requires
        old(rgba)@.len() == 1024,
        0 <= left_x < 16,
        0 <= top_y < 16,
        0 <= size <= 16,
    ensures
        final(rgba)@.len() == 1024,
        forall|i: int|
            0 <= i < 1024 ==> #[trigger] final(rgba)@[i] == if in_triangle_right(
                i / 4,
                left_x as int,
                top_y as int,
                size as int,
            ) {
                color_byte(color, i)
            } else {
                old(rgba)@[i]
            },
{
    let ghost orig = rgba@;
    let mut col: i32 = 0;
    while col < size
        invariant
            0 <= col <= size <= 16,
            0 <= left_x < 16,
            0 <= top_y < 16,
            rgba@.len() == 1024,
            forall|i: int|
                0 <= i < 1024 ==> #[trigger] rgba@[i] == if in_triangle_right(
                    i / 4,
                    left_x as int,
                    top_y as int,
                    col as int,
                ) {
                    color_byte(color, i)
                } else {
                    orig[i]
                },
        decreases size - col,
    {
        let half = col / 2;
        paint_column(rgba, left_x + col, top_y - half, top_y + half + 1, color);
        col = col + 1;
    }
}


/// The colour of the pin glyph: dark on light themes, light on dark ones.
pub open spec fn pin_color(dark_variant: bool) -> [u8; 4] {
    if dark_variant {
        [25u8, 25u8, 25u8, 255u8]
    } else {
        [236u8, 236u8, 236u8, 255u8]
    }
}

/// Whether pixel number `p` belongs to the pin glyph: upright when pinned,
/// lying on its side when not.
pub open spec fn pin_shape(pinned: bool, p: int) -> bool {
    if pinned {
        in_rect(p, 5, 2, 11, 4) || in_rect(p, 7, 5, 9, 11) || in_triangle_down(p, 8, 12, 3)
    } else {
        in_rect(p, 3, 4, 8, 6) || in_rect(p, 8, 6, 12, 8) || in_triangle_right(p, 12, 9, 3)
    }
}

/// Byte `i` of the 16x16 pin icon: the glyph colour on the glyph,
/// transparent black elsewhere.
pub open spec fn pin_icon_byte(pinned: bool, dark_variant: bool, i: int) -> u8 {
    if pin_shape(pinned, i / 4) {
        color_byte(pin_color(dark_variant), i)
    } else {
        0u8
    }
}

/// Draws the 16x16 RGBA pin icon of the display tray.
pub fn pin_icon_rgba(pinned: bool, dark_variant: bool) -> (rgba: Vec<u8>)
    ensures
        rgba@.len() == 1024,
        forall|i: int| 0 <= i < 1024 ==> #[trigger] rgba@[i] == pin_icon_byte(pinned, dark_variant, i),
{
    let mut rgba: Vec<u8> = vec![0u8; 1024];
    let color: [u8; 4] = if dark_variant {
        [25u8, 25u8, 25u8, 255u8]
    } else {
        [236u8, 236u8, 236u8, 255u8]
    };
    assert(color == pin_color(dark_variant));
    let ghost blank = rgba@;
    assert forall|i: int| 0 <= i < 1024 implies blank[i] == 0u8 by {
        assert(cloned(0u8, blank[i]));
    }
    if pinned {
        draw_rect(&mut rgba, 5, 2, 11, 4, color);
        draw_rect(&mut rgba, 7, 5, 9, 11, color);
        draw_triangle_down(&mut rgba, 8, 12, 3, color);
    } else {
        draw_rect(&mut rgba, 3, 4, 8, 6, color);
        draw_rect(&mut rgba, 8, 6, 12, 8, color);
        draw_triangle_right(&mut rgba, 12, 9, 3, color);
    }
    rgba
}


/// Position `x` of row `a` in a row-major grid of `n` rows of width `w`
/// lies inside the grid, and before the start of row `n`.
proof fn lemma_row_major(a: int, b: int, w: int, n: int)
    by (nonlinear_arith)
    requires
        0 <= a < n,
        0 <= b < w,
    ensures
        0 <= a * w + b < n * w,
        a * w + b + 1 <= n * w,
        a * w + w == (a + 1) * w,
{
}

proof fn lemma_rows_grow(d: int, w: int)
    by (nonlinear_arith)
    requires
        0 <= w,
        0 <= d,
    ensures
        d * w + w == (d + 1) * w,
        0 <= d * w,
        d * w == w * d,
{
}

/// A mask row, padded to 32 bits, is never longer than four bytes a pixel.
proof fn lemma_stride_bound(w: int, h: int)
    by (nonlinear_arith)
    requires
        0 <= w,
        0 <= h,
    ensures
        0 <= (w + 31) / 32 * 4 <= 4 * w,
        (w + 31) / 32 * 4 * h <= w * h * 4,
        ((w + 31) / 32 * 4) * 8 <= w + 31,
{
    let s = (w + 31) / 32;
    assert(s * 32 <= w + 31);
    assert(s <= w) by {
        if w == 0 {
            assert(s == 0);
        }
    }
    assert(s * 4 * h <= 4 * w * h);
}

/// The colour channel that byte `c` of a BGRA pixel reads from an RGBA one.
pub open spec fn bgra_source(c: int) -> int {
    if c == 3 {
        3
    } else {
        2 - c
    }
}

/// Whether `xor` is the colour bitmap of an icon: the RGBA pixels stored
/// bottom row first, each as blue, green, red, alpha.
pub open spec fn is_color_bitmap(xor: Seq<u8>, rgba: Seq<u8>, w: int, h: int) -> bool {
    &&& xor.len() == w * h * 4
    &&& forall|dy: int, x: int, c: int|
        0 <= dy < h && 0 <= x < w && 0 <= c < 4 ==> #[trigger] xor[(dy * w + x) * 4 + c] == rgba[((h - 1 - dy)
            * w + x) * 4 + bgra_source(c)]
}

/// Whether pixel `x` of bitmap row `row` (bottom row first) is fully
/// transparent; columns past the width are not.
pub open spec fn transparent_at(rgba: Seq<u8>, w: int, h: int, row: int, x: int) -> bool {
    x < w && rgba[((h - 1 - row) * w + x) * 4 + 3] == 0
}

/// The first `n` bits, most significant first, of byte `k` of a mask row.
pub open spec fn mask_bits(rgba: Seq<u8>, w: int, h: int, row: int, k: int, n: nat) -> int
    decreases n,
{
    if n == 0 {
        0
    } else {
        mask_bits(rgba, w, h, row, k, (n - 1) as nat) * 2 + if transparent_at(rgba, w, h, row, k * 8 + n - 1) {
            1int
        } else {
            0int
        }
    }
}

/// Bytes per row of an icon mask: one bit a pixel, padded to 32 bits.
pub open spec fn mask_stride(w: int) -> int {
    (w + 31) / 32 * 4
}

/// Whether `mask` is the transparency mask of an icon: one bit per pixel,
/// set for fully transparent ones, rows bottom first and padded to 32 bits.
pub open spec fn is_transparency_mask(mask: Seq<u8>, rgba: Seq<u8>, w: int, h: int) -> bool {
    &&& mask.len() == mask_stride(w) * h
    &&& forall|row: int, k: int|
        0 <= row < h && 0 <= k < mask_stride(w) ==> #[trigger] mask[row * mask_stride(w) + k] == mask_bits(
            rgba,
            w,
            h,
            row,
            k,
            8,
        )
}

spec fn two_to(n: nat) -> int
    decreases n,
{
    if n == 0 {
        1
    } else {
        2 * two_to((n - 1) as nat)
    }
}

proof fn lemma_mask_bits_bound(rgba: Seq<u8>, w: int, h: int, row: int, k: int, n: nat)
    ensures
        0 <= mask_bits(rgba, w, h, row, k, n) < two_to(n),
    decreases n,
{
    if n > 0 {
        lemma_mask_bits_bound(rgba, w, h, row, k, (n - 1) as nat);
    }
}

/// The two bitmaps from which a native icon is made.
#[derive(Debug)]
pub struct IconBitmaps {
    /// Colour pixels, bottom row first, in BGRA order.
    pub xor: Vec<u8>,
    /// Transparency mask, one bit a pixel, rows padded to 32 bits.
    pub and_mask: Vec<u8>,
}

/// Whether an icon of this size, with this many RGBA bytes, can be turned
/// into native bitmaps: both sides and the pixel count fit an `i32`, and the
/// buffer holds exactly four bytes a pixel.
pub open spec fn icon_fits(len: int, width: int, height: int) -> bool {
    &&& width <= i32::MAX
    &&& height <= i32::MAX
    &&& width * height <= i32::MAX
    &&& len == width * height * 4
}

fn color_bitmap(rgba: &[u8], w: usize, h: usize) -> (xor: Vec<u8>)
    requires
        rgba@.len() == w * h * 4,
    ensures
        is_color_bitmap(xor@, rgba@, w as int, h as int),
{
    let len = rgba.len();
    let mut xor: Vec<u8> = Vec::new();
    let mut dy: usize = 0;
    proof {
        lemma_rows_grow(0, w as int);
        lemma_rows_grow(h as int, w as int);
    }
    while dy < h
        invariant
            dy <= h,
            0 <= dy * w,
            len == w * h * 4,
            h * w == w * h,
            rgba@.len() == w * h * 4,
            xor@.len() == dy * w * 4,
            forall|dy2: int, x: int, c: int|
                0 <= dy2 < dy && 0 <= x < w && 0 <= c < 4 ==> #[trigger] xor@[(dy2 * w + x) * 4 + c] == rgba@[((h - 1
                    - dy2) * w + x) * 4 + bgra_source(c)],
        decreases h - dy,
    {
        let sy = h - 1 - dy;
        let mut x: usize = 0;
        proof {
            lemma_rows_grow(dy as int, w as int);
        }
        while x < w
            invariant
                dy < h,
                x <= w,
                sy == h - 1 - dy,
                len == w * h * 4,
                h * w == w * h,
                rgba@.len() == w * h * 4,
                xor@.len() == (dy * w + x) * 4,
                forall|dy2: int, x2: int, c: int|
                    0 <= c < 4 && 0 <= x2 < w && ((0 <= dy2 < dy) || (dy2 == dy && 0 <= x2 < x))
                        ==> #[trigger] xor@[(dy2 * w + x2) * 4 + c] == rgba@[((h - 1 - dy2) * w + x2) * 4
                        + bgra_source(c)],
            decreases w - x,
        {
            proof {
                lemma_row_major(sy as int, x as int, w as int, h as int);
                lemma_row_major(dy as int, x as int, w as int, h as int);
            }
            let base = (sy * w + x) * 4;
            let ghost before = xor@;
            xor.push(rgba[base + 2]);
            xor.push(rgba[base + 1]);
            xor.push(rgba[base]);
            xor.push(rgba[base + 3]);
            proof {
                assert forall|dy2: int, x2: int, c: int|
                    0 <= c < 4 && 0 <= x2 < w && ((0 <= dy2 < dy) || (dy2 == dy && 0 <= x2 < x + 1))
                        implies #[trigger] xor@[(dy2 * w + x2) * 4 + c] == rgba@[((h - 1 - dy2) * w + x2) * 4
                        + bgra_source(c)] by {
                    if dy2 < dy {
                        lemma_row_major(dy2, x2, w as int, dy as int);
                        assert(xor@[(dy2 * w + x2) * 4 + c] == before[(dy2 * w + x2) * 4 + c]);
                    } else if x2 < x {
                        assert(xor@[(dy2 * w + x2) * 4 + c] == before[(dy2 * w + x2) * 4 + c]);
                    }
                }
            }
            x = x + 1;
        }
        proof {
            lemma_rows_grow(dy as int, w as int);
        }
        dy = dy + 1;
    }
    proof {
        lemma_rows_grow(h as int, w as int);
    }
    xor
}

fn transparency_mask(rgba: &[u8], w: usize, h: usize) -> (mask: Vec<u8>)
    requires
        rgba@.len() == w * h * 4,
        w <= i32::MAX,
    ensures
        is_transparency_mask(mask@, rgba@, w as int, h as int),
{
    proof {
        lemma_stride_bound(w as int, h as int);
    }
    let len = rgba.len();
    let stride = (w + 31) / 32 * 4;
    let mut mask: Vec<u8> = Vec::new();
    proof {
        lemma_rows_grow(h as int, w as int);
    }
    let mut row: usize = 0;
    proof {
        lemma_rows_grow(0, stride as int);
    }
    while row < h
        invariant
            row <= h,
            w <= i32::MAX,
            stride == mask_stride(w as int),
            stride * 8 <= w + 31,
            stride * h <= w * h * 4,
            len == w * h * 4,
            h * w == w * h,
            rgba@.len() == w * h * 4,
            mask@.len() == row * stride,
            forall|r2: int, k: int|
                0 <= r2 < row && 0 <= k < stride ==> #[trigger] mask@[r2 * stride + k] == mask_bits(
                    rgba@,
                    w as int,
                    h as int,
                    r2,
                    k,
                    8,
                ),
        decreases h - row,
    {
        let sy = h - 1 - row;
        let mut k: usize = 0;
        proof {
            lemma_rows_grow(row as int, stride as int);
        }
        while k < stride
            invariant
                row < h,
                k <= stride,
                sy == h - 1 - row,
                w <= i32::MAX,
                stride == mask_stride(w as int),
                stride * 8 <= w + 31,
                stride * h <= w * h * 4,
                len == w * h * 4,
                h * w == w * h,
                rgba@.len() == w * h * 4,
                mask@.len() == row * stride + k,
                forall|r2: int, k2: int|
                    0 <= k2 < stride && ((0 <= r2 < row) || (r2 == row && 0 <= k2 < k)) ==> #[trigger] mask@[r2
                        * stride + k2] == mask_bits(rgba@, w as int, h as int, r2, k2, 8),
            decreases stride - k,
        {
            let mut bits: u32 = 0;
            let mut j: usize = 0;
            while j < 8
                invariant
                    j <= 8,
                    row < h,
                    k < stride,
                    sy == h - 1 - row,
                    stride * 8 <= w + 31,
                    w <= i32::MAX,
                    len == w * h * 4,
                    h * w == w * h,
                    rgba@.len() == w * h * 4,
                    bits == mask_bits(rgba@, w as int, h as int, row as int, k as int, j as nat),
                    bits < two_to(j as nat),
                decreases 8 - j,
            {
                let x = k * 8 + j;
                let mut flag: u32 = 0;
                if x < w {
                    proof {
                        lemma_row_major(sy as int, x as int, w as int, h as int);
                    }
                    if rgba[(sy * w + x) * 4 + 3] == 0 {
                        flag = 1;
                    }
                }
                proof {
                    reveal_with_fuel(two_to, 9);
                    lemma_mask_bits_bound(rgba@, w as int, h as int, row as int, k as int, j as nat);
                }
                bits = bits * 2 + flag;
                j = j + 1;
            }
            proof {
                reveal_with_fuel(two_to, 9);
                lemma_row_major(row as int, k as int, stride as int, h as int);
            }
            let ghost before = mask@;
            mask.push(bits as u8);
            proof {
                assert forall|r2: int, k2: int|
                    0 <= k2 < stride && ((0 <= r2 < row) || (r2 == row && 0 <= k2 < k + 1)) implies #[trigger] mask@[r2
                        * stride + k2] == mask_bits(rgba@, w as int, h as int, r2, k2, 8) by {
                    if r2 < row {
                        lemma_row_major(r2, k2, stride as int, row as int);
                        assert(mask@[r2 * stride + k2] == before[r2 * stride + k2]);
                    } else if k2 < k {
                        assert(mask@[r2 * stride + k2] == before[r2 * stride + k2]);
                    }
                }
            }
            k = k + 1;
        }
        proof {
            lemma_rows_grow(row as int, stride as int);
        }
        row = row + 1;
    }
    proof {
        lemma_rows_grow(h as int, stride as int);
    }
    mask
}

/// Turns RGBA pixels into the colour bitmap and transparency mask of a
/// native icon; `None` when the size and the buffer do not agree.
pub fn icon_bitmaps(rgba: &[u8], width: u32, height: u32) -> (r: Option<IconBitmaps>)
    ensures
        r is Some <==> icon_fits(rgba@.len() as int, width as int, height as int),
        r matches Some(b) ==> is_color_bitmap(b.xor@, rgba@, width as int, height as int)
            && is_transparency_mask(b.and_mask@, rgba@, width as int, height as int),
{
    if width > 0x7fff_ffff || height > 0x7fff_ffff {
        return None;
    }
    assert(width as u64 * height as u64 <= 0x7fff_ffffu64 * 0x7fff_ffffu64) by (nonlinear_arith)
        requires
            width <= 0x7fff_ffff,
            height <= 0x7fff_ffff,
    ;
    let pixels: u64 = width as u64 * height as u64;
    if pixels > 0x7fff_ffff {
        return None;
    }
    if rgba.len() as u64 != pixels * 4 {
        return None;
    }
    let w = width as usize;
    let h = height as usize;
    let xor = color_bitmap(rgba, w, h);
    let and_mask = transparency_mask(rgba, w, h);
    Some(IconBitmaps { xor, and_mask })
}

/// A tray icon that an extension adds beside the daemon's own.
#[derive(Debug, Clone)]
pub struct AdditionalTrayIconSpec {
    pub extension_id: String,
    pub title: String,
}

/// Why an extension tray icon could not be set up.
#[derive(Debug)]
pub enum AdditionalTrayError {
    Init(String),
}

impl AdditionalTrayError {
    pub open spec fn message(&self) -> Seq<char> {
        match self {
            AdditionalTrayError::Init(m) => "tray icon initialization failed: "@ + m@,
        }
    }

    pub fn to_string(&self) -> (s: String)
        ensures
            s@ == self.message(),
    {
        match self {
            AdditionalTrayError::Init(m) => concat2("tray icon initialization failed: ", m.as_str()),
        }
    }
}

/// Whether `specs` lists exactly the extension tray icons to show: the
/// display manager's, when that extension is enabled, and nothing else.
pub open spec fn expected_tray_specs(specs: Seq<AdditionalTrayIconSpec>, windows_display_enabled: bool) -> bool {
    if windows_display_enabled {
        &&& specs.len() == 1
        &&& specs[0].extension_id@ == WINDOWS_DISPLAY_MANAGER_ID@
        &&& specs[0].title@ == "Windows Display Manager"@
    } else {
        specs.len() == 0
    }
}

/// The extension tray icons that are shown.
pub struct AdditionalTrayController {
    specs: Vec<AdditionalTrayIconSpec>,
}

impl AdditionalTrayController {
    pub closed spec fn spec_list(&self) -> Seq<AdditionalTrayIconSpec> {
        self.specs@
    }

    /// Lists the extension tray icons to show. The native icon itself is
    /// started by the caller, where the platform has one.
    pub fn initialize(windows_display_enabled: bool) -> (r: Result<Self, AdditionalTrayError>)
        ensures
            r matches Ok(c) && expected_tray_specs(c.spec_list(), windows_display_enabled),
    {
        let mut specs: Vec<AdditionalTrayIconSpec> = Vec::new();
        if windows_display_enabled {
            specs.push(
                AdditionalTrayIconSpec {
                    extension_id: owned(WINDOWS_DISPLAY_MANAGER_ID),
                    title: owned("Windows Display Manager"),
                },
            );
        }
        Ok(AdditionalTrayController { specs })
    }

    pub fn specs(&self) -> (s: &[AdditionalTrayIconSpec])
        ensures
            s@ == self.spec_list(),
    {
        self.specs.as_slice()
    }
}

} // verus!
