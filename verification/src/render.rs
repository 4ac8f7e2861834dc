use crate::settings::Settings;
use crate::style::Color;
use crate::style::Style;
use crate::view::View;
use vstd::arithmetic::power2::pow2;
use vstd::prelude::*;
use vstd::view::View as _;

verus! {

/// Channel `k` of a color, in the order the frame buffer stores them:
/// red, green, blue, alpha.
pub open spec fn color_channel(c: Color, k: int) -> u8 {
    if k == 0 {
        c.r
    } else if k == 1 {
        c.g
    } else if k == 2 {
        c.b
    } else {
        c.a
    }
}

/// The color of output pixel `p` of a frame: pixel coordinates are divided
/// by the zoom factor (nearest-neighbor magnification), columns beyond the
/// logical width are transparent, and every other pixel asks the style for
/// the color of view index `y * width + x`.
pub open spec fn spec_pixel_color<S: Style>(style: S, data: Seq<u8>, s: Settings, p: int) -> Color {
    let zf = pow2((s.zoom - 1) as nat) as int;
    let x = (p % (s.canvas_width as int)) / zf;
    let y = (p / (s.canvas_width as int)) / zf;
    if x >= s.width {
        Color::spec_transparent()
    } else {
        style.spec_color(data, s.offset + s.offset_fine, s.stride as int, y * s.width + x)
    }
}

/// Renders one frame: fills every whole RGBA pixel of `frame` with the color
/// that the style gives its view index, pixel by pixel in row-major order.
/// The view over `data` starts at `offset + offset_fine` and advances by
/// `stride`.  Bytes after the last whole pixel are left untouched.
#[verifier::loop_isolation(false)]
pub fn draw<S: Style>(style: &mut S, data: &[u8], settings: &Settings, frame: &mut Vec<u8>)
    requires
        old(style).wf(),
        1 <= settings.zoom <= 30,
        1 <= settings.canvas_width,
        1 <= settings.width,
        1 <= settings.stride,
        isize::MIN <= settings.offset + settings.offset_fine <= isize::MAX,
        old(frame).len() <= 0x4000_0000,
        (old(frame).len() / 4) * settings.width <= isize::MAX,
    ensures
        *final (style) == *old(style),
        final (frame).len() == old(frame).len(),
        forall|j: int|
            0 <= j < old(frame).len() ==> final (frame)@[j] == (if j < 4 * (old(frame).len() / 4) {
                color_channel(spec_pixel_color(*old(style), data@, *settings, j / 4), j % 4)
            } else {
                old(frame)@[j]
            }),
{
    let start = settings.offset + settings.offset_fine;
    let view = View::new(data, start, settings.stride);
    style.init(&view);
    let zf = settings.zoom_factor();
    let n_pixels = frame.len() / 4;
    let canvas = settings.canvas_width as usize;
    let mut p: usize = 0;
    while p < n_pixels
        invariant
            *style == *old(style),
            p <= n_pixels,
            frame.len() == old(frame).len(),
            forall|j: int|
                0 <= j < 4 * p ==> frame@[j] == color_channel(
                    spec_pixel_color(*old(style), data@, *settings, j / 4),
                    j % 4,
                ),
            forall|j: int| 4 * p <= j < frame.len() ==> frame@[j] == old(frame)@[j],
        decreases n_pixels - p,
    {
        let x = (p % canvas) / (zf as usize);
        let y = (p / canvas) / (zf as usize);
        proof {
            vstd::arithmetic::div_mod::lemma_div_nonincreasing(p as int, canvas as int);
            vstd::arithmetic::div_mod::lemma_div_nonincreasing(
                (p as int) / (canvas as int),
                zf as int,
            );
        }
        let color = if x >= settings.width as usize {
            Color::transparent()
        } else {
            proof {
                assert(0 <= y * settings.width && y * settings.width + x < n_pixels
                    * settings.width) by (nonlinear_arith)
                    requires
                        0 <= y < n_pixels,
                        0 <= x < settings.width,
                ;
            }
            let view_index = y * (settings.width as usize) + x;
            style.color_at_index(&view, view_index as isize)
        };
        proof {
            assert(color == spec_pixel_color(*old(style), data@, *settings, p as int));
        }
        let base = 4 * p;
        *vstd::std_specs::vec::vec_index_mut(frame, base) = color.r;
        *vstd::std_specs::vec::vec_index_mut(frame, base + 1) = color.g;
        *vstd::std_specs::vec::vec_index_mut(frame, base + 2) = color.b;
        *vstd::std_specs::vec::vec_index_mut(frame, base + 3) = color.a;
        proof {
            assert forall|j: int| 0 <= j < 4 * (p + 1) implies frame@[j] == color_channel(
                spec_pixel_color(*old(style), data@, *settings, j / 4),
                j % 4,
            ) by {
                if 4 * p <= j {
                    vstd::arithmetic::div_mod::lemma_fundamental_div_mod_converse(
                        j,
                        4,
                        p as int,
                        j - 4 * p,
                    );
                }
            }
        }
        p = p + 1;
    }
}

} // verus!
