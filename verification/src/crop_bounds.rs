use vstd::prelude::*;
use vstd::arithmetic::div_mod::lemma_div_is_ordered;
use vstd::arithmetic::div_mod::lemma_div_multiples_vanish;
use vstd::arithmetic::div_mod::lemma_div_non_zero;
use vstd::arithmetic::div_mod::lemma_div_pos_is_pos;
use vstd::arithmetic::div_mod::lemma_fundamental_div_mod_converse;
use vstd::arithmetic::div_mod::lemma_fundamental_div_mod;
use vstd::arithmetic::div_mod::lemma_hoist_over_denominator;
use vstd::arithmetic::div_mod::lemma_mod_bound;
use vstd::arithmetic::mul::lemma_mul_nonnegative;
use vstd::arithmetic::mul::lemma_mul_inequality;
use vstd::arithmetic::mul::lemma_mul_is_commutative;

verus! {

/// The geometry configuration of one print job: the source image size, the
/// derived virtual canvas size, and the printer's fixed strip dimensions.
/// All of the engine's arithmetic is unsigned 32-bit, as the print pipeline's.
#[derive(Clone, Copy)]
pub struct CropBounds {
    pub image_width: u32,
    pub image_height: u32,
    pub virtual_width: u32,
    pub virtual_height: u32,
    pub paper_width_px: u32,
    pub printable_width_px: u32,
    pub max_strip_len_px: u32,
}

/// One step of the tiling: the source crop rectangle `(x, y, width, height)`,
/// the size `(upscale_width, upscale_height)` it must be resampled to, the
/// nominal tile height recorded when the source ran out of rows, and whether
/// this tile completes a horizontal pass (which triggers a cut).
#[derive(Debug, Clone, Copy)]
pub struct CropInfo {
    pub x: u32,
    pub y: u32,
    pub width: u32,
    pub height: u32,
    pub upscale_width: u32,
    pub upscale_height: u32,
    pub whitespace_height: Option<u32>,
    pub is_strip_end: bool,
}

/// Source column of the tile that starts at virtual column `vx` (floor).
pub open spec fn crop_x_at(b: CropBounds, vx: int) -> int {
    b.image_width * vx / b.virtual_width as int
}

/// Source row of the tile of the row that starts at virtual row `vy` (floor).
pub open spec fn crop_y_at(b: CropBounds, vy: int) -> int {
    b.image_height * vy / b.virtual_height as int
}

/// Nominal (unclamped) width of every source crop rectangle.
pub open spec fn nominal_crop_width(b: CropBounds) -> int {
    b.image_width * b.max_strip_len_px / b.virtual_width as int
}

/// Nominal (unclamped) height of every source crop rectangle.
pub open spec fn nominal_crop_height(b: CropBounds) -> int {
    b.image_height * b.printable_width_px / b.virtual_height as int
}

/// Crop width after the clamp at the right edge of the source image.
pub open spec fn crop_width_at(b: CropBounds, vx: int) -> int {
    if crop_x_at(b, vx) + nominal_crop_width(b) > b.image_width {
        b.image_width - crop_x_at(b, vx)
    } else {
        nominal_crop_width(b)
    }
}

/// True when the nominal tile of the row at `vy` runs past the bottom of the
/// source image, so that the emitted tile is shrunk and padded with blank rows.
pub open spec fn row_clipped(b: CropBounds, vy: int) -> bool {
    crop_y_at(b, vy) + nominal_crop_height(b) > b.image_height
}

/// Crop height after the clamp at the bottom edge of the source image.
pub open spec fn crop_height_at(b: CropBounds, vy: int) -> int {
    if row_clipped(b, vy) {
        b.image_height - crop_y_at(b, vy)
    } else {
        nominal_crop_height(b)
    }
}

/// The padding indicator: present exactly when the row is clipped at the
/// bottom edge, and then it carries the nominal (pre-clamp) tile height.
pub open spec fn whitespace_at(b: CropBounds, vy: int) -> Option<u32> {
    if row_clipped(b, vy) {
        Some(nominal_crop_height(b) as u32)
    } else {
        None
    }
}

/// Width the tile is resampled to: the full strip length, capped to the
/// remaining virtual width for the last tile of a row.
pub open spec fn upscale_width_at(b: CropBounds, vx: int) -> int {
    if vx + b.max_strip_len_px > b.virtual_width {
        b.virtual_width - vx
    } else {
        b.max_strip_len_px as int
    }
}

/// True for the tile that completes the horizontal pass across the canvas.
pub open spec fn is_row_end(b: CropBounds, vx: int) -> bool {
    vx + b.max_strip_len_px >= b.virtual_width
}

/// The descriptor emitted for the tile at virtual position `(vx, vy)`.
pub open spec fn tile_at(b: CropBounds, vx: int, vy: int) -> CropInfo {
    CropInfo {
        x: crop_x_at(b, vx) as u32,
        y: crop_y_at(b, vy) as u32,
        width: crop_width_at(b, vx) as u32,
        height: crop_height_at(b, vy) as u32,
        upscale_width: upscale_width_at(b, vx) as u32,
        upscale_height: b.printable_width_px,
        whitespace_height: whitespace_at(b, vy),
        is_strip_end: is_row_end(b, vx),
    }
}

/// Exclusive bound on the virtual rows at which an unfinished traversal can
/// stand: one traversal never starts a row at or past this line.
pub open spec fn rows_bound(b: CropBounds) -> int {
    b.virtual_height + nominal_crop_height(b)
}

/// The configuration keeps every 32-bit operation of the traversal in range:
/// non-zero divisors, and no product or sum above `u32::MAX` for any cursor
/// position the traversal can reach.
pub open spec fn config_fits(b: CropBounds) -> bool {
    &&& b.virtual_width > 0
    &&& b.virtual_height > 0
    &&& b.image_width * b.max_strip_len_px <= u32::MAX
    &&& b.image_height * b.printable_width_px <= u32::MAX
    &&& b.image_width * (b.virtual_width - 1) <= u32::MAX
    &&& b.image_height * (rows_bound(b) - 1) <= u32::MAX
    &&& b.image_width + nominal_crop_width(b) <= u32::MAX
    &&& b.image_height + nominal_crop_height(b) <= u32::MAX
    &&& (b.virtual_width - 1) + b.max_strip_len_px <= u32::MAX
    &&& rows_bound(b) + b.paper_width_px <= u32::MAX
}

impl CropBounds {
    /// Derives the virtual canvas from the source size and the chosen virtual
    /// width, preserving the source aspect ratio:
    /// `virtual_height = virtual_width * image_height / image_width` (floor).
    ///
    /// # Arguments
    ///
    /// * `image_width` - Input image width (must be non-zero)
    /// * `image_height` - Input image height
    /// * `virtual_width` - Width of the virtual canvas, in printer px
    /// * `paper_width_px` - Width of paper, in px
    /// * `printable_width_px` - Printable width of paper, in px
    /// * `max_strip_len_px` - Maximal length for any strip
    pub fn new(
        image_width: u32,
        image_height: u32,
        virtual_width: u32,
        paper_width_px: u32,
        printable_width_px: u32,
        max_strip_len_px: u32,
    ) -> (r: Self)
        requires
            image_width > 0,
            virtual_width * image_height <= u32::MAX,
        ensures
            r.image_width == image_width,
            r.image_height == image_height,
            r.virtual_width == virtual_width,
            r.virtual_height == virtual_width * image_height / image_width as int,
            r.paper_width_px == paper_width_px,
            r.printable_width_px == printable_width_px,
            r.max_strip_len_px == max_strip_len_px,
    {
        let virtual_height = (virtual_width * image_height) / image_width;
        Self {
            image_width,
            image_height,
            virtual_width,
            virtual_height,
            paper_width_px,
            printable_width_px,
            max_strip_len_px,
        }
    }

    /// Consumes the configuration into a fresh traversal standing at the
    /// top-left corner of the virtual canvas.
    pub fn into_iter(self) -> (r: CropBoundsIterator)
        ensures
            r.bounds == self,
            r.virtual_x == 0,
            r.virtual_y == 0,
            !r.finished,
    {
        CropBoundsIterator {
            bounds: self,
            virtual_x: 0,
            virtual_y: 0,
            finished: false,
        }
    }
}

/// A single forward traversal of the virtual canvas: row-major, one tile per
/// pull, not restartable. It owns the configuration it was built from.
pub struct CropBoundsIterator {
    pub bounds: CropBounds,
    pub virtual_x: u32,
    pub virtual_y: u32,
    pub finished: bool,
}

/// The state that one pull leaves behind, as a function of the state before.
/// A finished traversal stays as it is. The traversal ends at a row's end
/// once the next row start reaches `virtual_height` plus the clamped,
/// source-space crop height of the row just completed — the engine's literal
/// cut-off rule, which deliberately adds a source-pixel quantity to a
/// virtual-space bound.
pub open spec fn step_of(s: CropBoundsIterator) -> CropBoundsIterator {
    let b = s.bounds;
    if s.finished {
        s
    } else if is_row_end(b, s.virtual_x as int) {
        CropBoundsIterator {
            bounds: b,
            virtual_x: 0,
            virtual_y: (s.virtual_y + b.paper_width_px) as u32,
            finished: s.virtual_y + b.paper_width_px >= b.virtual_height + crop_height_at(
                b,
                s.virtual_y as int,
            ),
        }
    } else {
        CropBoundsIterator {
            bounds: b,
            virtual_x: (s.virtual_x + b.max_strip_len_px) as u32,
            virtual_y: s.virtual_y,
            finished: false,
        }
    }
}

impl CropBoundsIterator {
    /// A state the traversal can actually stand in: the configuration fits the
    /// machine arithmetic and, while unfinished, the cursors lie inside the
    /// canvas with the source row cursor not yet past the image.
    pub open spec fn wf(self) -> bool {
        &&& config_fits(self.bounds)
        &&& !self.finished ==> {
            &&& self.virtual_x < self.bounds.virtual_width
            &&& self.virtual_y < rows_bound(self.bounds)
            &&& crop_y_at(self.bounds, self.virtual_y as int) <= self.bounds.image_height
        }
    }

    /// Produces the next tile of the traversal, or `None` once it is finished.
    ///
    /// The emitted descriptor is exactly `tile_at` of the cursors before the
    /// call, and the cursors advance by one step of the row-major raster:
    /// across by one strip length, or down by one paper width at a row's end.
    pub fn next(&mut self) -> (r: Option<CropInfo>)
        requires
            old(self).wf(),
        ensures
            *final(self) == step_of(*old(self)),
            old(self).finished ==> r is None,
            !old(self).finished ==> {
                let b = old(self).bounds;
                &&& r == Some(tile_at(b, old(self).virtual_x as int, old(self).virtual_y as int))
                &&& b.paper_width_px > 0 ==> (tile_at(
                    b,
                    old(self).virtual_x as int,
                    old(self).virtual_y as int,
                ).is_strip_end <==> final(self).virtual_y != old(self).virtual_y)
            },
    {
        let b = self.bounds;

        if self.finished {
            return None;
        }

        proof {
            let iw = b.image_width as int;
            let ih = b.image_height as int;
            let vw = b.virtual_width as int;
            let vh = b.virtual_height as int;
            let vx = self.virtual_x as int;
            let vy = self.virtual_y as int;
            assert(iw * vx <= iw * (vw - 1)) by {
                lemma_mul_inequality(vx, vw - 1, iw);
                lemma_mul_is_commutative(iw, vx);
                lemma_mul_is_commutative(iw, vw - 1);
            }
            assert(ih * vy <= ih * (rows_bound(b) - 1)) by {
                lemma_mul_inequality(vy, rows_bound(b) - 1, ih);
                lemma_mul_is_commutative(ih, vy);
                lemma_mul_is_commutative(ih, rows_bound(b) - 1);
            }
            // crop_x never reaches the right edge of the source image
            assert(crop_x_at(b, vx) <= iw) by {
                lemma_mul_inequality(vx, vw, iw);
                lemma_mul_is_commutative(iw, vx);
                lemma_mul_is_commutative(iw, vw);
                lemma_div_is_ordered(iw * vx, iw * vw, vw);
                lemma_div_multiples_vanish(iw, vw);
                lemma_mul_is_commutative(iw, vw);
            }
            lemma_div_pos_is_pos(ih * vy, vh);
            lemma_div_pos_is_pos(iw * vx, vw);
            lemma_div_pos_is_pos(iw * b.max_strip_len_px, vw);
            lemma_div_pos_is_pos(ih * b.printable_width_px, vh);
        }

        let crop_x = b.image_width * self.virtual_x / b.virtual_width;
        let crop_y = b.image_height * self.virtual_y / b.virtual_height;
        let crop_width = b.image_width * b.max_strip_len_px / b.virtual_width;
        let crop_height = b.image_height * b.printable_width_px / b.virtual_height;

        let crop_width = if crop_x + crop_width > b.image_width {
            b.image_width - crop_x
        } else {
            crop_width
        };

        let (whitespace_height, crop_height) = if crop_y + crop_height > b.image_height {
            (Some(crop_height), b.image_height - crop_y)
        } else {
            (None, crop_height)
        };

        let mut crop_info = CropInfo {
            x: crop_x,
            y: crop_y,
            width: crop_width,
            height: crop_height,
            upscale_width: if self.virtual_x + b.max_strip_len_px > b.virtual_width {
                b.virtual_width - self.virtual_x
            } else {
                b.max_strip_len_px
            },
            whitespace_height,
            upscale_height: b.printable_width_px,
            is_strip_end: false,
        };

        self.virtual_x = self.virtual_x + b.max_strip_len_px;

        if self.virtual_x >= b.virtual_width {
            self.virtual_x = 0;
            self.virtual_y = self.virtual_y + b.paper_width_px;
            crop_info.is_strip_end = true;
            if self.virtual_y >= b.virtual_height + crop_height {
                self.finished = true;
            }
        }

        Some(crop_info)
    }
}

/// Law: the tile that ends a row meets the right edge of the source image
/// exactly, `x + width == image_width`, with no off-by-one — for every column
/// at which the nominal tile reaches or crosses that edge. (At a row-ending
/// column where the nominal tile falls short of the edge, the clamp cannot
/// fire and the row stops short; such columns are left out here.)
pub proof fn lemma_row_end_reaches_right_edge(b: CropBounds, vx: int)
    requires
        config_fits(b),
        0 <= vx < b.virtual_width,
        is_row_end(b, vx),
        crop_x_at(b, vx) + nominal_crop_width(b) >= b.image_width,
    ensures
        crop_x_at(b, vx) + crop_width_at(b, vx) == b.image_width,
{
}

/// When the virtual width divides the image width evenly, the premise of
/// `lemma_row_end_reaches_right_edge` holds of every row-ending column, so the
/// last tile of every row meets the right edge exactly.
pub proof fn lemma_divisible_width_reaches_right_edge(b: CropBounds, vx: int)
    requires
        config_fits(b),
        0 <= vx < b.virtual_width,
        is_row_end(b, vx),
        b.image_width as int % (b.virtual_width as int) == 0,
    ensures
        crop_x_at(b, vx) + crop_width_at(b, vx) == b.image_width,
{
    let iw = b.image_width as int;
    let vw = b.virtual_width as int;
    let s = b.max_strip_len_px as int;
    let q = iw / vw;
    lemma_fundamental_div_mod(iw, vw);
    assert(iw == vw * q);
    assert(crop_x_at(b, vx) == q * vx) by {
        assert(iw * vx == vw * (q * vx)) by (nonlinear_arith)
            requires iw == vw * q;
        lemma_div_multiples_vanish(q * vx, vw);
    }
    assert(nominal_crop_width(b) == q * s) by {
        assert(iw * s == vw * (q * s)) by (nonlinear_arith)
            requires iw == vw * q;
        lemma_div_multiples_vanish(q * s, vw);
    }
    assert(q * vx + q * s >= iw) by (nonlinear_arith)
        requires iw == vw * q, vx + s >= vw, q >= 0, vw >= 1;
    assert(q >= 0) by {
        lemma_div_pos_is_pos(iw, vw);
    }
    lemma_row_end_reaches_right_edge(b, vx);
}

/// Law: the padding indicator is present if and only if the nominal tile of
/// the row runs past the bottom of the source image; it then carries the
/// nominal (pre-clamp) crop height, and the emitted height is what the source
/// still has.
pub proof fn lemma_whitespace_iff_clipped(b: CropBounds, vy: int)
    ensures
        whitespace_at(b, vy) is Some <==> crop_y_at(b, vy) + nominal_crop_height(b)
            > b.image_height,
        whitespace_at(b, vy) is Some ==> whitespace_at(b, vy) == Some(
            nominal_crop_height(b) as u32,
        ),
        whitespace_at(b, vy) is Some ==> crop_height_at(b, vy) == b.image_height - crop_y_at(
            b,
            vy,
        ),
{
}

/// Law: no emitted tile is degenerate across the width — `width >= 1` at
/// every column — exactly when one nominal strip spans at least one source
/// column, `image_width * max_strip_len_px >= virtual_width`. (Below that
/// bound the nominal width floors to zero and every unclamped tile is empty.)
pub proof fn lemma_tile_width_positive(b: CropBounds, vx: int)
    requires
        config_fits(b),
        0 <= vx < b.virtual_width,
        b.image_width * b.max_strip_len_px >= b.virtual_width,
    ensures
        crop_width_at(b, vx) >= 1,
{
    let iw = b.image_width as int;
    let vw = b.virtual_width as int;
    assert(nominal_crop_width(b) >= 1) by {
        lemma_div_non_zero(iw * b.max_strip_len_px, vw);
    }
    assert(iw >= 1) by (nonlinear_arith)
        requires iw * b.max_strip_len_px >= vw, vw >= 1, iw >= 0;
    assert(crop_x_at(b, vx) <= iw - 1) by {
        assert(iw * vx <= iw * vw - iw) by (nonlinear_arith)
            requires 0 <= vx <= vw - 1, iw >= 1;
        lemma_div_is_ordered(iw * vx, iw * vw - 1, vw);
        assert(iw * vw - 1 == (iw - 1) * vw + (vw - 1)) by (nonlinear_arith);
        lemma_fundamental_div_mod_converse(iw * vw - 1, vw, iw - 1, vw - 1);
    }
}

/// Law: a tile's height is positive wherever the row is not clipped at the
/// bottom edge — exactly when one swath spans at least one source row,
/// `image_height * printable_width_px >= virtual_height`. A clipped row can
/// degenerate to height zero, but only together with its padding indicator.
pub proof fn lemma_tile_height_positive(b: CropBounds, vy: int)
    requires
        config_fits(b),
        crop_y_at(b, vy) <= b.image_height,
        b.image_height * b.printable_width_px >= b.virtual_height,
    ensures
        !row_clipped(b, vy) ==> crop_height_at(b, vy) >= 1,
        row_clipped(b, vy) ==> crop_height_at(b, vy) == b.image_height - crop_y_at(b, vy) >= 0,
        crop_height_at(b, vy) == 0 ==> whitespace_at(b, vy) is Some,
{
    lemma_div_non_zero(
        b.image_height * b.printable_width_px,
        b.virtual_height as int,
    );
}

/// Ceiling division, for positive divisors.
pub open spec fn div_ceil(a: int, d: int) -> int {
    (a + d - 1) / d
}

/// A variant for the traversal: an upper bound on the pulls an unfinished
/// traversal can still answer, counted over whole rows of `tiles_per_row`
/// tiles each.
pub open spec fn step_measure(s: CropBoundsIterator) -> int {
    if s.finished {
        0
    } else {
        let b = s.bounds;
        div_ceil(b.virtual_width - s.virtual_x, b.max_strip_len_px as int) + tiles_per_row(b) * (
        div_ceil(rows_bound(b) - s.virtual_y, b.paper_width_px as int) - 1)
    }
}

/// The state after `n` pulls.
pub open spec fn iterate(s: CropBoundsIterator, n: nat) -> CropBoundsIterator
    decreases n,
{
    if n == 0 {
        s
    } else {
        iterate(step_of(s), (n - 1) as nat)
    }
}

/// The traversal's bottom-edge arithmetic stays in range from the row at `vy`
/// on: every row reached from there maps to a source row no deeper than the
/// image, until the cut after some row ends the traversal. A configuration
/// without this property drives the engine's unsigned `image_height - crop_y`
/// below zero on some row — a fatal precondition violation, not a recoverable
/// state.
pub open spec fn rows_safe_from(b: CropBounds, vy: int) -> bool
    decreases rows_bound(b) - vy
        when 0 <= vy < rows_bound(b) && b.paper_width_px >= 1 && config_fits(b)
{
    &&& crop_y_at(b, vy) <= b.image_height
    &&& (vy + b.paper_width_px < b.virtual_height + crop_height_at(b, vy) ==> rows_safe_from(
        b,
        vy + b.paper_width_px,
    ))
}

/// How many tiles one row of the traversal emits: the virtual width divided
/// by the strip length, rounded up.
pub open spec fn tiles_per_row(b: CropBounds) -> int {
    (b.virtual_width + b.max_strip_len_px - 1) / b.max_strip_len_px as int
}

/// Law: within one row the tiles stand at virtual columns `0, s, 2 * s, ...`
/// for strip length `s`, and of its `tiles_per_row` tiles exactly the last
/// one ends the strip: `is_strip_end` is true of the tile with index
/// `tiles_per_row - 1` and false of every tile before it.
pub proof fn lemma_strip_end_exactly_once_per_row(b: CropBounds, k: int)
    requires
        config_fits(b),
        b.max_strip_len_px > 0,
        0 <= k < tiles_per_row(b),
    ensures
        k * b.max_strip_len_px < b.virtual_width,
        is_row_end(b, k * b.max_strip_len_px) <==> k == tiles_per_row(b) - 1,
{
    let s = b.max_strip_len_px as int;
    let vw = b.virtual_width as int;
    let t = tiles_per_row(b);
    lemma_fundamental_div_mod(vw + s - 1, s);
    lemma_mod_bound(vw + s - 1, s);
    assert(s * t <= vw + s - 1 && s * t >= vw);
    assert(k * s <= (t - 1) * s) by {
        lemma_mul_inequality(k, t - 1, s);
    }
    assert((t - 1) * s == s * t - s) by (nonlinear_arith);
    assert((k + 1) * s == k * s + s) by (nonlinear_arith);
    if k < t - 1 {
        assert((k + 1) * s <= (t - 1) * s) by {
            lemma_mul_inequality(k + 1, t - 1, s);
        }
    }
}

/// Law: every tile is resampled to the full strip length `max_strip_len_px`,
/// except the last tile of a row, which is capped to the virtual width that
/// remains at its column — never more than the strip length.
pub proof fn lemma_upscale_width_per_row(b: CropBounds, k: int)
    requires
        config_fits(b),
        b.max_strip_len_px > 0,
        0 <= k < tiles_per_row(b),
    ensures
        k < tiles_per_row(b) - 1 ==> upscale_width_at(b, k * b.max_strip_len_px)
            == b.max_strip_len_px,
        k == tiles_per_row(b) - 1 ==> upscale_width_at(b, k * b.max_strip_len_px)
            == b.virtual_width - k * b.max_strip_len_px,
        k == tiles_per_row(b) - 1 ==> upscale_width_at(b, k * b.max_strip_len_px)
            <= b.max_strip_len_px,
{
    let s = b.max_strip_len_px as int;
    let vw = b.virtual_width as int;
    let t = tiles_per_row(b);
    lemma_strip_end_exactly_once_per_row(b, k);
    lemma_fundamental_div_mod(vw + s - 1, s);
    lemma_mod_bound(vw + s - 1, s);
    assert(s * t <= vw + s - 1 && s * t >= vw);
    assert((t - 1) * s == s * t - s) by (nonlinear_arith);
    assert((k + 1) * s == k * s + s) by (nonlinear_arith);
    if k < t - 1 {
        assert((k + 1) * s <= (t - 1) * s) by {
            lemma_mul_inequality(k + 1, t - 1, s);
        }
    }
}

/// A fresh traversal over a fitting configuration is well formed.
pub proof fn lemma_initial_state_wf(b: CropBounds)
    requires
        config_fits(b),
    ensures
        (CropBoundsIterator { bounds: b, virtual_x: 0, virtual_y: 0, finished: false }).wf(),
        rows_bound(b) >= 1,
        crop_y_at(b, 0) == 0,
{
    let vh = b.virtual_height as int;
    assert(crop_y_at(b, 0) == 0) by {
        assert(b.image_height * 0 == 0);
        lemma_div_multiples_vanish(0, vh);
    }
    assert(nominal_crop_height(b) >= 0) by {
        lemma_mul_nonnegative(b.image_height as int, b.printable_width_px as int);
        lemma_div_pos_is_pos(b.image_height * b.printable_width_px, vh);
    }
}

/// One pull keeps the traversal well formed, as long as the row it moves to
/// maps into the source image (`rows_safe_from` supplies that for every row a
/// safely configured traversal reaches).
pub proof fn lemma_step_preserves_wf(s: CropBoundsIterator)
    requires
        s.wf(),
        !s.finished,
        !step_of(s).finished ==> crop_y_at(s.bounds, step_of(s).virtual_y as int)
            <= s.bounds.image_height,
    ensures
        step_of(s).wf(),
{
    let b = s.bounds;
    let vx = s.virtual_x as int;
    let vy = s.virtual_y as int;
    let s2 = step_of(s);
    if is_row_end(b, vx) {
        assert(vy + b.paper_width_px <= u32::MAX);
        assert(s2.virtual_y == vy + b.paper_width_px);
        if !s2.finished {
            assert(crop_height_at(b, vy) <= nominal_crop_height(b));
            assert(s2.virtual_y < rows_bound(b));
        }
    } else {
        assert(vx + b.max_strip_len_px <= u32::MAX);
        assert(s2.virtual_x == vx + b.max_strip_len_px);
    }
}

/// Law: each pull strictly shrinks the variant `step_measure`, which is
/// positive while the traversal is unfinished — so the traversal is finite.
pub proof fn lemma_step_decreases(s: CropBoundsIterator)
    requires
        s.wf(),
        !s.finished,
        s.bounds.max_strip_len_px > 0,
        s.bounds.paper_width_px > 0,
    ensures
        step_measure(s) >= 1,
        0 <= step_measure(step_of(s)) < step_measure(s),
{
    let b = s.bounds;
    let sl = b.max_strip_len_px as int;
    let p = b.paper_width_px as int;
    let vw = b.virtual_width as int;
    let vx = s.virtual_x as int;
    let vy = s.virtual_y as int;
    let cb = rows_bound(b);
    let s2 = step_of(s);
    let tir = div_ceil(vw - vx, sl);
    let rl = div_ceil(cb - vy, p);
    let tpr = tiles_per_row(b);
    assert(tir >= 1) by {
        lemma_div_non_zero(vw - vx + sl - 1, sl);
    }
    assert(rl >= 1) by {
        lemma_div_non_zero(cb - vy + p - 1, p);
    }
    assert(tpr >= 1) by {
        lemma_div_non_zero(vw + sl - 1, sl);
    }
    lemma_mul_nonnegative(tpr, rl - 1);
    if is_row_end(b, vx) {
        assert(s2.virtual_y == vy + p);
        assert(tir == 1) by {
            lemma_div_is_ordered(vw - vx + sl - 1, 2 * sl - 1, sl);
            assert(2 * sl - 1 == 1 * sl + (sl - 1)) by (nonlinear_arith);
            lemma_fundamental_div_mod_converse(2 * sl - 1, sl, 1, sl - 1);
        }
        if !s2.finished {
            assert(crop_height_at(b, vy) <= nominal_crop_height(b));
            assert(vy + p < cb);
            let rl2 = div_ceil(cb - vy - p, p);
            assert(rl2 == rl - 1) by {
                lemma_hoist_over_denominator(cb - vy - p + p - 1, 1, b.paper_width_px as nat);
                assert((cb - vy - p + p - 1) + 1 * p == cb - vy + p - 1 - p + 1 * p);
                assert(cb - vy + p - 1 - p + 1 * p == cb - vy + p - 1) by (nonlinear_arith);
            }
            assert(step_measure(s2) == tpr + tpr * (rl - 2));
            assert(tpr * (rl - 2) + tpr == tpr * (rl - 1)) by (nonlinear_arith);
            assert(tpr * (rl - 2) >= 0) by {
                assert(rl2 >= 1) by {
                    lemma_div_non_zero(cb - vy - p + p - 1, p);
                }
                lemma_mul_nonnegative(tpr, rl - 2);
            }
        }
    } else {
        assert(s2.virtual_x == vx + sl);
        assert(!s2.finished);
        let tir2 = div_ceil(vw - vx - sl, sl);
        assert(tir2 == tir - 1) by {
            lemma_hoist_over_denominator(vw - vx - sl + sl - 1, 1, b.max_strip_len_px as nat);
            assert((vw - vx - sl + sl - 1) + 1 * sl == vw - vx + sl - 1) by (nonlinear_arith);
        }
        assert(step_measure(s2) == tir - 1 + tpr * (rl - 1));
    }
}

/// Law: the traversal is finite. From any well-formed state whose remaining
/// rows are safe, at most `step_measure` further pulls reach the finished
/// state, after which every pull answers `None`.
pub proof fn lemma_sequence_terminates(s: CropBoundsIterator)
    requires
        s.wf(),
        s.bounds.max_strip_len_px > 0,
        s.bounds.paper_width_px > 0,
        !s.finished ==> rows_safe_from(s.bounds, s.virtual_y as int),
    ensures
        exists|n: nat| n <= step_measure(s) && #[trigger] iterate(s, n).finished,
    decreases step_measure(s),
{
    if s.finished {
        assert(iterate(s, 0).finished);
    } else {
        let b = s.bounds;
        let vx = s.virtual_x as int;
        let vy = s.virtual_y as int;
        let s2 = step_of(s);
        lemma_step_decreases(s);
        assert(rows_safe_from(b, vy));
        if is_row_end(b, vx) && !s2.finished {
            assert(vy + b.paper_width_px < b.virtual_height + crop_height_at(b, vy));
            assert(rows_safe_from(b, vy + b.paper_width_px));
            assert(s2.virtual_y == vy + b.paper_width_px);
            assert(crop_y_at(b, s2.virtual_y as int) <= b.image_height);
        }
        lemma_step_preserves_wf(s);
        lemma_sequence_terminates(s2);
        let n2 = choose|n: nat| n <= step_measure(s2) && #[trigger] iterate(s2, n).finished;
        assert(iterate(s, n2 + 1) == iterate(s2, n2));
    }
}

} // verus!
