use binocle::style::ABGR;
use binocle::style::BGR;
use binocle::style::Category;
use binocle::style::Color;
use binocle::style::ColorGradient;
use binocle::style::Colorful;
use binocle::style::Entropy;
use binocle::style::Grayscale;
use binocle::style::RGB;
use binocle::style::RGBA;
use binocle::style::Style;
use binocle::style::color_from_index;
use binocle::view::View;

const ENTROPY_SCALE: u64 = 1048576;

fn rgba(r: u8, g: u8, b: u8, a: u8) -> Color {
    Color { r, g, b, a }
}

const TRANSPARENT: Color = Color { r: 0, g: 0, b: 0, a: 0 };

#[test]
fn colorful_wraps_channels() {
    let data: Vec<u8> = vec![0x00, 0x40, 0x81, 0xff];
    let view = View::new(&data, 0, 1);
    let style = Colorful;

    assert_eq!(style.color_at_index(&view, 0), rgba(0, 0, 0, 255));
    assert_eq!(style.color_at_index(&view, 1), rgba(0x40, 0x80, 0x00, 255));
    assert_eq!(style.color_at_index(&view, 2), rgba(0x81, 0x02, 0x04, 255));
    assert_eq!(style.color_at_index(&view, 3), rgba(0xff, 0xfe, 0xfc, 255));
    assert_eq!(style.color_at_index(&view, 4), TRANSPARENT);
}

#[test]
fn grayscale_repeats_byte() {
    let data: Vec<u8> = vec![7, 200];
    let view = View::new(&data, 0, 1);
    let style = Grayscale;

    assert_eq!(style.color_at_index(&view, 0), rgba(7, 7, 7, 255));
    assert_eq!(style.color_at_index(&view, 1), rgba(200, 200, 200, 255));
    assert_eq!(style.color_at_index(&view, 2), TRANSPARENT);
}

#[test]
fn category_buckets() {
    let data: Vec<u8> = vec![0x00, 0xff, b'a', b'0', b'!', b' ', 0x07, 0x90];
    let view = View::new(&data, 0, 1);
    let style = Category;

    assert_eq!(style.color_at_index(&view, 0), rgba(0, 0, 0, 255)); // NUL
    assert_eq!(style.color_at_index(&view, 1), rgba(255, 255, 255, 255)); // 0xFF
    assert_eq!(style.color_at_index(&view, 2), rgba(60, 178, 255, 255)); // letter
    assert_eq!(style.color_at_index(&view, 3), rgba(60, 178, 255, 255)); // digit
    assert_eq!(style.color_at_index(&view, 4), rgba(0, 129, 213, 255)); // punctuation
    assert_eq!(style.color_at_index(&view, 5), rgba(162, 218, 255, 255)); // whitespace
    assert_eq!(style.color_at_index(&view, 6), rgba(60, 255, 137, 255)); // other ASCII
    assert_eq!(style.color_at_index(&view, 7), rgba(249, 53, 94, 255)); // high bit
    assert_eq!(style.color_at_index(&view, 8), TRANSPARENT);
}

#[test]
fn gradient_lookup() {
    let mut table = Vec::new();
    for b in 0..=255u8 {
        table.push(rgba(b, b.wrapping_add(1), 0, 255));
    }
    let style = ColorGradient::new(table).expect("a 256-entry table builds");

    let data: Vec<u8> = vec![0, 17, 255];
    let view = View::new(&data, 0, 1);
    assert_eq!(style.color_at_index(&view, 0), rgba(0, 1, 0, 255));
    assert_eq!(style.color_at_index(&view, 1), rgba(17, 18, 0, 255));
    assert_eq!(style.color_at_index(&view, 2), rgba(255, 0, 0, 255));
    assert_eq!(style.color_at_index(&view, 3), TRANSPARENT);
}

#[test]
fn gradient_rejects_wrong_table_length() {
    assert!(ColorGradient::new(vec![TRANSPARENT; 255]).is_none());
    assert!(ColorGradient::new(vec![TRANSPARENT; 257]).is_none());
    assert!(ColorGradient::new(Vec::new()).is_none());
    assert!(ColorGradient::new(vec![TRANSPARENT; 256]).is_some());
}

#[test]
fn four_byte_styles_permute_channels() {
    let data: Vec<u8> = vec![0x11, 0x22, 0x33, 0x44, 0x55];
    let view = View::new(&data, 0, 1);

    assert_eq!(RGBA.color_at_index(&view, 0), rgba(0x11, 0x22, 0x33, 0x44));
    assert_eq!(RGBA.color_at_index(&view, 1), rgba(0x22, 0x33, 0x44, 0x55));
    assert_eq!(RGBA.color_at_index(&view, 2), TRANSPARENT);

    assert_eq!(ABGR.color_at_index(&view, 0), rgba(0x44, 0x33, 0x22, 0x11));
    assert_eq!(ABGR.color_at_index(&view, 2), TRANSPARENT);
}

#[test]
fn three_byte_styles_permute_channels() {
    let data: Vec<u8> = vec![0x11, 0x22, 0x33, 0x44];
    let view = View::new(&data, 0, 1);

    assert_eq!(RGB.color_at_index(&view, 0), rgba(0x11, 0x22, 0x33, 255));
    assert_eq!(RGB.color_at_index(&view, 1), rgba(0x22, 0x33, 0x44, 255));
    assert_eq!(RGB.color_at_index(&view, 2), TRANSPARENT);

    assert_eq!(BGR.color_at_index(&view, 0), rgba(0x33, 0x22, 0x11, 255));
    assert_eq!(BGR.color_at_index(&view, 2), TRANSPARENT);
}

#[test]
fn color_from_index_clamps_nothing() {
    let colors = vec![rgba(1, 0, 0, 255), rgba(2, 0, 0, 255)];
    assert_eq!(color_from_index(&colors, 0), rgba(1, 0, 0, 255));
    assert_eq!(color_from_index(&colors, 1), rgba(2, 0, 0, 255));
    // Out-of-range indices degrade to the transparent "no data" signal for
    // every input, never a clamped entry.
    assert_eq!(color_from_index(&colors, 2), TRANSPARENT);
    assert_eq!(color_from_index(&colors, -1), TRANSPARENT);
    assert_eq!(color_from_index(&colors, i64::MAX), TRANSPARENT);
    assert_eq!(color_from_index(&colors, i64::MIN), TRANSPARENT);
}

/// The weight table the application precomputes for the entropy style:
/// entry `c` is `c * log2(c) * ENTROPY_SCALE`, rounded.
fn entropy_weight(window: usize) -> Vec<u64> {
    let mut weight = Vec::with_capacity(window + 1);
    for c in 0..=window {
        if c == 0 {
            weight.push(0);
        } else {
            let v = (c as f64) * (c as f64).log2() * (ENTROPY_SCALE as f64);
            weight.push(v.round() as u64);
        }
    }
    weight
}

fn gray_palette() -> Vec<Color> {
    (0..=255u8).map(|i| rgba(i, i, i, 255)).collect()
}

#[test]
fn entropy_rejects_unusable_arguments() {
    assert!(Entropy::with_window_size(0, vec![0], gray_palette()).is_none());
    assert!(Entropy::with_window_size(4, vec![0; 4], gray_palette()).is_none());
    assert!(Entropy::with_window_size(4, vec![1, 0, 0, 0, 0], gray_palette()).is_none());
    assert!(Entropy::with_window_size(4, vec![0; 5], Vec::new()).is_none());
    assert!(Entropy::with_window_size(4, vec![0; 5], gray_palette()).is_some());
}

#[test]
fn entropy_zero_for_identical_window() {
    let style = Entropy::with_window_size(32, entropy_weight(32), gray_palette())
        .expect("a consistent entropy style builds");
    let data: Vec<u8> = vec![0xab; 64];
    let view = View::new(&data, 0, 1);

    // A window of identical bytes has zero entropy: the first palette entry.
    assert_eq!(style.color_at_index(&view, 0), rgba(0, 0, 0, 255));
    // A window that would straddle the end of the buffer renders as no data.
    assert_eq!(style.color_at_index(&view, 33), TRANSPARENT);
}

#[test]
fn entropy_maximal_for_uniform_window() {
    let style = Entropy::with_window_size(256, entropy_weight(256), gray_palette())
        .expect("a consistent entropy style builds");
    let data: Vec<u8> = (0..=255u8).collect();
    let view = View::new(&data, 0, 1);

    // All 256 byte values equally represented at window size 256: entropy
    // reaches the top of the scale, the last palette entry.
    assert_eq!(style.color_at_index(&view, 0), rgba(255, 255, 255, 255));
}

#[test]
fn entropy_intermediate_windows_order_sensibly() {
    let style = Entropy::with_window_size(16, entropy_weight(16), gray_palette())
        .expect("a consistent entropy style builds");
    let flat: Vec<u8> = vec![7; 16];
    let mixed: Vec<u8> = (0..16u8).map(|i| i / 4).collect();
    let spread: Vec<u8> = (0..16u8).collect();

    let at = |data: &Vec<u8>| {
        let view = View::new(data, 0, 1);
        style.color_at_index(&view, 0).r
    };
    let flat_level = at(&flat);
    let mixed_level = at(&mixed);
    let spread_level = at(&spread);
    assert_eq!(flat_level, 0);
    assert!(flat_level < mixed_level);
    assert!(mixed_level < spread_level);
}
