use crate::view::View;
use crate::view::byte_of;
use crate::view::window_of;
use vstd::prelude::*;
use vstd::view::View as _;

verus! {

/// An RGBA color with 8-bit channels.
#[derive(Clone, Copy, PartialEq, Eq, Structural, Debug)]
pub struct Color {
    pub r: u8,
    pub g: u8,
    pub b: u8,
    pub a: u8,
}

impl Color {
    /// The fully transparent color: the universal "no data" signal that
    /// every style produces when the underlying read fails.
    pub open spec fn spec_transparent() -> Color {
        Color { r: 0, g: 0, b: 0, a: 0 }
    }

    pub fn transparent() -> (c: Color)
        ensures
            c == Color::spec_transparent(),
    {
        Color { r: 0, g: 0, b: 0, a: 0 }
    }

    /// A fully opaque color with the given channels.
    pub open spec fn spec_opaque(r: u8, g: u8, b: u8) -> Color {
        Color { r, g, b, a: 255 }
    }

    pub fn opaque(r: u8, g: u8, b: u8) -> (c: Color)
        ensures
            c == Color::spec_opaque(r, g, b),
    {
        Color { r, g, b, a: 255 }
    }
}

/// A policy that converts a sampled view position into an RGBA color.
///
/// `spec_color` pins the produced color down as a function of the bytes, the
/// window placement and the index alone; `color_at_index` is proved to return
/// exactly that color, and every implementation yields the fully transparent
/// color precisely when the underlying read fails.
pub trait Style: Sized {
    /// The internal consistency that `color_at_index` relies on;
    /// constructors establish it.
    spec fn wf(&self) -> bool;

    /// The color produced for view index `i` over the bytes `data` through a
    /// window that begins at `start` and advances by `stride`.
    spec fn spec_color(&self, data: Seq<u8>, start: int, stride: int, i: int) -> Color;

    /// Per-frame initialization hook, invoked once before a frame's pixel
    /// loop; it leaves the style's observable state unchanged.
    fn init(&mut self, view: &View<'_>)
        requires
            old(self).wf(),
        ensures
            *final (self) == *old(self),
    ;

    /// The color for `view_index`.
    fn color_at_index(&self, view: &View<'_>, view_index: isize) -> (c: Color)
        requires
            self.wf(),
        ensures
            c == self.spec_color(
                view.spec_data(),
                view.spec_start(),
                view.spec_stride(),
                view_index as int,
            ),
    ;
}

/// One byte per pixel: red is the byte itself, green and blue are the byte
/// doubled and quadrupled with wraparound — deliberate overflow for visual
/// texture, not an error.
pub struct Colorful;

impl Style for Colorful {
    open spec fn wf(&self) -> bool {
        true
    }

    open spec fn spec_color(&self, data: Seq<u8>, start: int, stride: int, i: int) -> Color {
        match byte_of(data, start, stride, i) {
            Some(b) => Color { r: b, g: ((2 * b) % 256) as u8, b: ((4 * b) % 256) as u8, a: 255 },
            None => Color::spec_transparent(),
        }
    }

    fn init(&mut self, _view: &View<'_>) {
    }

    fn color_at_index(&self, view: &View<'_>, view_index: isize) -> (c: Color) {
        match view.byte_at(view_index) {
            Some(b) => Color {
                r: b,
                g: (((b as u16) * 2) % 256) as u8,
                b: (((b as u16) * 4) % 256) as u8,
                a: 255,
            },
            None => Color::transparent(),
        }
    }
}

/// One byte per pixel, rendered as its own gray level.
pub struct Grayscale;

impl Style for Grayscale {
    open spec fn wf(&self) -> bool {
        true
    }

    open spec fn spec_color(&self, data: Seq<u8>, start: int, stride: int, i: int) -> Color {
        match byte_of(data, start, stride, i) {
            Some(b) => Color::spec_opaque(b, b, b),
            None => Color::spec_transparent(),
        }
    }

    fn init(&mut self, _view: &View<'_>) {
    }

    fn color_at_index(&self, view: &View<'_>, view_index: isize) -> (c: Color) {
        match view.byte_at(view_index) {
            Some(b) => Color::opaque(b, b, b),
            None => Color::transparent(),
        }
    }
}

/// Whether a byte is an ASCII digit or letter.
pub open spec fn is_alnum_byte(b: u8) -> bool {
    (0x30 <= b <= 0x39) || (0x41 <= b <= 0x5a) || (0x61 <= b <= 0x7a)
}

/// Whether a byte is an ASCII punctuation character.
pub open spec fn is_punctuation_byte(b: u8) -> bool {
    (0x21 <= b <= 0x2f) || (0x3a <= b <= 0x40) || (0x5b <= b <= 0x60) || (0x7b <= b <= 0x7e)
}

/// Whether a byte is ASCII whitespace: space, tab, newline, form feed or
/// carriage return.
pub open spec fn is_whitespace_byte(b: u8) -> bool {
    b == 0x20 || b == 0x09 || b == 0x0a || b == 0x0c || b == 0x0d
}

/// The bucket color of a byte under the `Category` style: NUL near-black,
/// 0xFF white, alphanumerics blue, punctuation darker blue, whitespace pale
/// blue, remaining ASCII green, bytes with the high bit set red.
pub open spec fn category_color(b: u8) -> Color {
    if b == 0x00 {
        Color::spec_opaque(0, 0, 0)
    } else if b == 0xff {
        Color::spec_opaque(255, 255, 255)
    } else if is_alnum_byte(b) {
        Color::spec_opaque(60, 178, 255)
    } else if is_punctuation_byte(b) {
        Color::spec_opaque(0, 129, 213)
    } else if is_whitespace_byte(b) {
        Color::spec_opaque(162, 218, 255)
    } else if b < 0x80 {
        Color::spec_opaque(60, 255, 137)
    } else {
        Color::spec_opaque(249, 53, 94)
    }
}

/// One byte per pixel, classified into visually distinct buckets: NUL,
/// printable, punctuation, whitespace, other ASCII, high-bit-set, 0xFF.
pub struct Category;

impl Style for Category {
    open spec fn wf(&self) -> bool {
        true
    }

    open spec fn spec_color(&self, data: Seq<u8>, start: int, stride: int, i: int) -> Color {
        match byte_of(data, start, stride, i) {
            Some(b) => category_color(b),
            None => Color::spec_transparent(),
        }
    }

    fn init(&mut self, _view: &View<'_>) {
    }

    fn color_at_index(&self, view: &View<'_>, view_index: isize) -> (c: Color) {
        match view.byte_at(view_index) {
            Some(b) => {
                if b == 0x00 {
                    Color::opaque(0, 0, 0)
                } else if b == 0xff {
                    Color::opaque(255, 255, 255)
                } else if (0x30 <= b && b <= 0x39) || (0x41 <= b && b <= 0x5a) || (0x61 <= b && b
                    <= 0x7a) {
                    Color::opaque(60, 178, 255)
                } else if (0x21 <= b && b <= 0x2f) || (0x3a <= b && b <= 0x40) || (0x5b <= b && b
                    <= 0x60) || (0x7b <= b && b <= 0x7e) {
                    Color::opaque(0, 129, 213)
                } else if b == 0x20 || b == 0x09 || b == 0x0a || b == 0x0c || b == 0x0d {
                    Color::opaque(162, 218, 255)
                } else if b < 0x80 {
                    Color::opaque(60, 255, 137)
                } else {
                    Color::opaque(249, 53, 94)
                }
            },
            None => Color::transparent(),
        }
    }
}

/// One byte per pixel, mapped through a precomputed 256-entry palette table,
/// one color per byte value; the lookup is constant-time.
pub struct ColorGradient {
    byte_color: Vec<Color>,
}

impl ColorGradient {
    /// The lookup table, one entry per byte value.
    pub closed spec fn table(&self) -> Seq<Color> {
        self.byte_color@
    }

    /// Builds the style from a 256-entry table; yields no style iff the
    /// table does not have exactly one entry per byte value.
    pub fn new(byte_color: Vec<Color>) -> (r: Option<ColorGradient>)
        ensures
            match r {
                Some(g) => byte_color@.len() == 256 && g.table() == byte_color@ && g.wf(),
                None => byte_color@.len() != 256,
            },
    {
        if byte_color.len() == 256 {
            Some(ColorGradient { byte_color })
        } else {
            None
        }
    }
}

impl Style for ColorGradient {
    open spec fn wf(&self) -> bool {
        self.table().len() == 256
    }

    open spec fn spec_color(&self, data: Seq<u8>, start: int, stride: int, i: int) -> Color {
        match byte_of(data, start, stride, i) {
            Some(b) => self.table()[b as int],
            None => Color::spec_transparent(),
        }
    }

    fn init(&mut self, _view: &View<'_>) {
    }

    fn color_at_index(&self, view: &View<'_>, view_index: isize) -> (c: Color) {
        match view.byte_at(view_index) {
            Some(b) => self.byte_color[b as usize],
            None => Color::transparent(),
        }
    }
}

/// Four bytes per pixel, emitted in buffer order as (R, G, B, A).
pub struct RGBA;

impl Style for RGBA {
    open spec fn wf(&self) -> bool {
        true
    }

    open spec fn spec_color(&self, data: Seq<u8>, start: int, stride: int, i: int) -> Color {
        match window_of(data, start, stride, i, 4) {
            Some(w) => Color { r: w[0], g: w[1], b: w[2], a: w[3] },
            None => Color::spec_transparent(),
        }
    }

    fn init(&mut self, _view: &View<'_>) {
    }

    fn color_at_index(&self, view: &View<'_>, view_index: isize) -> (c: Color) {
        match view.slice_at(view_index, 4) {
            Some(s) => Color {
                r: *vstd::slice::slice_index_get(s, 0),
                g: *vstd::slice::slice_index_get(s, 1),
                b: *vstd::slice::slice_index_get(s, 2),
                a: *vstd::slice::slice_index_get(s, 3),
            },
            None => Color::transparent(),
        }
    }
}

/// Four bytes per pixel, emitted in reversed buffer order: the channel order
/// produced is (R, G, B, A) for a word stored as A, B, G, R.
pub struct ABGR;

impl Style for ABGR {
    open spec fn wf(&self) -> bool {
        true
    }

    open spec fn spec_color(&self, data: Seq<u8>, start: int, stride: int, i: int) -> Color {
        match window_of(data, start, stride, i, 4) {
            Some(w) => Color { r: w[3], g: w[2], b: w[1], a: w[0] },
            None => Color::spec_transparent(),
        }
    }

    fn init(&mut self, _view: &View<'_>) {
    }

    fn color_at_index(&self, view: &View<'_>, view_index: isize) -> (c: Color) {
        match view.slice_at(view_index, 4) {
            Some(s) => Color {
                r: *vstd::slice::slice_index_get(s, 3),
                g: *vstd::slice::slice_index_get(s, 2),
                b: *vstd::slice::slice_index_get(s, 1),
                a: *vstd::slice::slice_index_get(s, 0),
            },
            None => Color::transparent(),
        }
    }
}

/// Three bytes per pixel, mapped to (R, G, B) with full opacity.
pub struct RGB;

impl Style for RGB {
    open spec fn wf(&self) -> bool {
        true
    }

    open spec fn spec_color(&self, data: Seq<u8>, start: int, stride: int, i: int) -> Color {
        match window_of(data, start, stride, i, 3) {
            Some(w) => Color::spec_opaque(w[0], w[1], w[2]),
            None => Color::spec_transparent(),
        }
    }

    fn init(&mut self, _view: &View<'_>) {
    }

    fn color_at_index(&self, view: &View<'_>, view_index: isize) -> (c: Color) {
        match view.rgb_at(view_index) {
            Some(t) => Color::opaque(t[0], t[1], t[2]),
            None => Color::transparent(),
        }
    }
}

/// Three bytes per pixel, mapped to (B, G, R) with full opacity.
pub struct BGR;

impl Style for BGR {
    open spec fn wf(&self) -> bool {
        true
    }

    open spec fn spec_color(&self, data: Seq<u8>, start: int, stride: int, i: int) -> Color {
        match window_of(data, start, stride, i, 3) {
            Some(w) => Color::spec_opaque(w[2], w[1], w[0]),
            None => Color::spec_transparent(),
        }
    }

    fn init(&mut self, _view: &View<'_>) {
    }

    fn color_at_index(&self, view: &View<'_>, view_index: isize) -> (c: Color) {
        match view.rgb_at(view_index) {
            Some(t) => Color::opaque(t[2], t[1], t[0]),
            None => Color::transparent(),
        }
    }
}

/// The color that a gradient lookup table yields for a raw, possibly
/// out-of-range index: the entry itself inside the table, and the fully
/// transparent color — never a clamped or wrapped entry — outside it.  The
/// datatype style quantizes its normalized sample into such an index and
/// resolves it here, so every out-of-range sample degrades to the universal
/// "no data" signal.
pub fn color_from_index(colors: &Vec<Color>, index: i64) -> (c: Color)
    ensures
        c == (if 0 <= index < colors@.len() {
            colors@[index as int]
        } else {
            Color::spec_transparent()
        }),
{
    if index >= 0 && (index as u64) < (colors.len() as u64) {
        colors[index as usize]
    } else {
        Color::transparent()
    }
}

/// The fixed-point scale of the entropy weight table: one unit of weight is
/// `1 / ENTROPY_SCALE` bits.
pub const ENTROPY_SCALE: u64 = 1048576;

/// How often the byte value `b` occurs in `w`.
pub open spec fn byte_count(w: Seq<u8>, b: u8) -> int
    decreases w.len(),
{
    if w.len() == 0 {
        0
    } else {
        byte_count(w.drop_last(), b) + if w.last() == b {
            1int
        } else {
            0int
        }
    }
}

/// The total weight of a window: the sum, over the byte values below
/// `upto`, of the weight-table entry for how often that value occurs.
pub open spec fn weight_sum(weight: Seq<u64>, w: Seq<u8>, upto: int) -> int
    decreases upto,
{
    if upto <= 0 {
        0
    } else {
        weight_sum(weight, w, upto - 1) + weight[byte_count(w, (upto - 1) as u8)]
    }
}

/// A byte value occurs between zero times and once per window position.
pub proof fn lemma_byte_count_bounds(w: Seq<u8>, b: u8)
    ensures
        0 <= byte_count(w, b) <= w.len(),
    decreases w.len(),
{
    if w.len() > 0 {
        lemma_byte_count_bounds(w.drop_last(), b);
    }
}

/// In a window of identical bytes, that byte accounts for every position
/// and every other value for none.
pub proof fn lemma_byte_count_constant_window(w: Seq<u8>, v: u8)
    requires
        forall|k: int| 0 <= k < w.len() ==> #[trigger] w[k] == v,
    ensures
        byte_count(w, v) == w.len(),
        forall|b: u8| b != v ==> byte_count(w, b) == 0,
    decreases w.len(),
{
    if w.len() > 0 {
        lemma_byte_count_constant_window(w.drop_last(), v);
        assert forall|b: u8| b != v implies byte_count(w, b) == 0 by {
            assert(byte_count(w.drop_last(), b) == 0);
        }
    } else {
        assert forall|b: u8| b != v implies byte_count(w, b) == 0 by {
            assert(byte_count(w, b) == 0);
        }
    }
}

/// The window weight of a window whose every byte equals `v`: the full-count
/// entry once `v` is in range, given that absent values weigh nothing.
proof fn lemma_weight_sum_constant_window(weight: Seq<u64>, w: Seq<u8>, v: u8, upto: int)
    requires
        0 <= upto <= 256,
        0 <= w.len() < weight.len(),
        weight[0] == 0,
        byte_count(w, v) == w.len(),
        forall|b: u8| b != v ==> byte_count(w, b) == 0,
    ensures
        weight_sum(weight, w, upto) == if v < upto {
            weight[w.len() as int]
        } else {
            0
        },
    decreases upto,
{
    if upto > 0 {
        lemma_weight_sum_constant_window(weight, w, v, upto - 1);
    }
}

/// The window weight of a window in which every byte value occurs exactly
/// once, given that single occurrences weigh nothing.
proof fn lemma_weight_sum_single_counts(weight: Seq<u64>, w: Seq<u8>, upto: int)
    requires
        0 <= upto <= 256,
        1 < weight.len(),
        weight[1] == 0,
        forall|b: u8| byte_count(w, b) == 1,
    ensures
        weight_sum(weight, w, upto) == 0,
    decreases upto,
{
    if upto > 0 {
        lemma_weight_sum_single_counts(weight, w, upto - 1);
    }
}

/// Sliding-window Shannon entropy in fixed point.
///
/// The style holds a weight table of length `window_size + 1` whose intended
/// entry `c` is `c * log2(c) * ENTROPY_SCALE` rounded to an integer — the
/// only real-valued ingredient of the entropy formula, precomputed by the
/// caller — and a palette through which the normalized entropy is mapped.
/// For a window with byte counts `c_b`, the Shannon entropy is `H = log2(W)
/// - (1/W)·Σ c_b·log2(c_b)`; scaled into `[0, 1]` by `1/8` (the maximal
/// entropy of a byte alphabet) and quantized over the palette it selects
/// entry `floor((weight[W] - Σ weight[c_b]) · len / (8·W·ENTROPY_SCALE))`,
/// clamped to the palette bounds.  The entropy of each window is recomputed
/// in full, O(window) per sample.
pub struct Entropy {
    window_size: usize,
    weight: Vec<u64>,
    palette: Vec<Color>,
}

impl Entropy {
    /// The window size in bytes.
    pub closed spec fn spec_window_size(&self) -> int {
        self.window_size as int
    }

    /// The weight table.
    pub closed spec fn spec_weight(&self) -> Seq<u64> {
        self.weight@
    }

    /// The palette through which normalized entropy is mapped.
    pub closed spec fn spec_palette(&self) -> Seq<Color> {
        self.palette@
    }

    /// The palette slot selected for the window `w`: zero when the window
    /// weight reaches the full-count weight (zero entropy), else the
    /// quantized normalized entropy, clamped to the last slot.
    pub open spec fn spec_index(&self, w: Seq<u8>) -> int {
        let total = self.spec_weight()[self.spec_window_size()] - weight_sum(
            self.spec_weight(),
            w,
            256,
        );
        if total <= 0 {
            0
        } else {
            let idx = total * self.spec_palette().len() / (8 * self.spec_window_size()
                * ENTROPY_SCALE);
            if idx >= self.spec_palette().len() {
                self.spec_palette().len() - 1
            } else {
                idx
            }
        }
    }

    /// Builds the style.  Yields no style iff the arguments are unusable:
    /// the window must be nonempty, the weight table must have one entry per
    /// possible count (so `window_size + 1` of them) with no weight for a
    /// count of zero, and the palette must be nonempty.
    pub fn with_window_size(window_size: usize, weight: Vec<u64>, palette: Vec<Color>) -> (r:
        Option<Entropy>)
        ensures
            match r {
                Some(e) => {
                    &&& window_size >= 1
                    &&& weight@.len() == window_size + 1
                    &&& weight@[0] == 0
                    &&& palette@.len() >= 1
                    &&& e.spec_window_size() == window_size
                    &&& e.spec_weight() == weight@
                    &&& e.spec_palette() == palette@
                    &&& e.wf()
                },
                None => !(window_size >= 1 && weight@.len() == window_size + 1 && weight@[0] == 0
                    && palette@.len() >= 1),
            },
    {
        let entries = weight.len();
        if window_size >= 1 && entries >= 1 && entries - 1 == window_size && weight[0] == 0
            && palette.len() >= 1 {
            Some(Entropy { window_size, weight, palette })
        } else {
            None
        }
    }
}

impl Style for Entropy {
    open spec fn wf(&self) -> bool {
        &&& self.spec_window_size() >= 1
        &&& self.spec_weight().len() == self.spec_window_size() + 1
        &&& self.spec_weight()[0] == 0
        &&& self.spec_palette().len() >= 1
    }

    open spec fn spec_color(&self, data: Seq<u8>, start: int, stride: int, i: int) -> Color {
        match window_of(data, start, stride, i, self.spec_window_size()) {
            Some(w) => self.spec_palette()[self.spec_index(w)],
            None => Color::spec_transparent(),
        }
    }

    fn init(&mut self, _view: &View<'_>) {
    }

    fn color_at_index(&self, view: &View<'_>, view_index: isize) -> (c: Color) {
        match view.slice_at(view_index, self.window_size) {
            None => Color::transparent(),
            Some(s) => {
                let n = s.len();
                let mut counts: Vec<usize> = vec![0usize; 256];
                proof {
                    assert(s@.take(0) =~= Seq::<u8>::empty());
                }
                let mut k: usize = 0;
                while k < n
                    invariant
                        counts@.len() == 256,
                        k <= n,
                        n == s@.len(),
                        forall|b: int|
                            0 <= b < 256 ==> counts@[b] == byte_count(s@.take(k as int), b as u8),
                    decreases n - k,
                {
                    let b = *vstd::slice::slice_index_get(s, k);
                    proof {
                        lemma_byte_count_bounds(s@.take(k as int), b);
                        assert(s@.take(k + 1).drop_last() =~= s@.take(k as int));
                        assert forall|b2: u8|
                            byte_count(s@.take(k + 1), b2) == byte_count(s@.take(k as int), b2) + (
                            if s@[k as int] == b2 {
                                1int
                            } else {
                                0int
                            }) by {}
                    }
                    let cur = counts[b as usize];
                    *vstd::std_specs::vec::vec_index_mut(&mut counts, b as usize) = cur + 1;
                    k = k + 1;
                }
                proof {
                    assert(s@.take(n as int) =~= s@);
                    assert forall|b: int| 0 <= b < 256 implies 0 <= #[trigger] counts@[b]
                        <= n by {
                        lemma_byte_count_bounds(s@, b as u8);
                    }
                }
                let mut total: u128 = 0;
                let mut bi: usize = 0;
                while bi < 256
                    invariant
                        counts@.len() == 256,
                        n == s@.len(),
                        n == self.spec_window_size(),
                        self.spec_weight().len() == n + 1,
                        forall|b: int|
                            0 <= b < 256 ==> #[trigger] counts@[b] == byte_count(s@, b as u8) && 0
                                <= counts@[b] <= n,
                        bi <= 256,
                        total == weight_sum(self.spec_weight(), s@, bi as int),
                        total <= bi * 0x1_0000_0000_0000_0000,
                    decreases 256 - bi,
                {
                    let c = counts[bi];
                    let wv = self.weight[c];
                    total = total + (wv as u128);
                    bi = bi + 1;
                }
                let w_total = self.weight[self.window_size];
                let tot128 = w_total as u128;
                let idx: usize = if total >= tot128 {
                    0
                } else {
                    let diff = tot128 - total;
                    let plen = self.palette.len() as u128;
                    proof {
                        assert(diff * plen <= 0xffff_ffff_ffff_ffff
                            * 0xffff_ffff_ffff_ffff) by (nonlinear_arith)
                            requires
                                diff <= 0xffff_ffff_ffff_ffff,
                                plen <= 0xffff_ffff_ffff_ffff,
                                0 <= diff,
                                0 <= plen,
                        ;
                    }
                    let num = diff * plen;
                    let den = (self.window_size as u128) * (8 * ENTROPY_SCALE) as u128;
                    proof {
                        assert(den == 8 * self.spec_window_size() * ENTROPY_SCALE)
                            by (nonlinear_arith)
                            requires
                                den == self.spec_window_size() * (8 * ENTROPY_SCALE),
                        ;
                    }
                    let q = num / den;
                    if q >= self.palette.len() as u128 {
                        self.palette.len() - 1
                    } else {
                        q as usize
                    }
                };
                self.palette[idx]
            },
        }
    }
}

/// A window of all-identical bytes has zero entropy, so the entropy style
/// selects the first palette entry for it, whatever the window size, the
/// byte and the weight table.
pub proof fn lemma_entropy_zero_for_constant_window(e: &Entropy, w: Seq<u8>)
    requires
        e.wf(),
        w.len() == e.spec_window_size(),
        forall|k: int| 0 <= k < w.len() ==> #[trigger] w[k] == w[0],
    ensures
        e.spec_index(w) == 0,
{
    let v = w[0];
    lemma_byte_count_constant_window(w, v);
    lemma_weight_sum_constant_window(e.spec_weight(), w, v, 256);
}

/// A 256-byte window in which every byte value occurs exactly once has
/// maximal entropy.  With a weight table that is exact at the two entries
/// the formula reads — single occurrences weigh nothing, and the full-count
/// weight is `256 · log2(256) · ENTROPY_SCALE`, which is `8 · 256 ·
/// ENTROPY_SCALE` — the entropy style selects the last palette entry.
pub proof fn lemma_entropy_max_for_uniform_window(e: &Entropy, w: Seq<u8>)
    requires
        e.wf(),
        e.spec_window_size() == 256,
        w.len() == 256,
        forall|b: u8| byte_count(w, b) == 1,
        e.spec_weight()[1] == 0,
        e.spec_weight()[256] == 8 * 256 * ENTROPY_SCALE,
    ensures
        e.spec_index(w) == e.spec_palette().len() - 1,
{
    lemma_weight_sum_single_counts(e.spec_weight(), w, 256);
    let den = 8 * 256 * (ENTROPY_SCALE as int);
    let plen = e.spec_palette().len() as int;
    vstd::arithmetic::div_mod::lemma_div_by_multiple(plen, den);
    assert(den * plen == plen * den) by (nonlinear_arith);
}

} // verus!
