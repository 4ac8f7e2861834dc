use binocle::render::draw;
use binocle::settings::DatatypeSettings;
use binocle::settings::GuiDatatype;
use binocle::settings::PixelStyle;
use binocle::settings::Settings;
use binocle::settings::WIDTH;
use binocle::style::Colorful;
use binocle::style::Grayscale;
use binocle::datatype::Datatype;
use binocle::datatype::Endianness;
use binocle::datatype::Signedness;

fn frame_settings(width: isize, canvas_width: isize, zoom: isize, stride: isize) -> Settings {
    Settings {
        width,
        canvas_width,
        zoom,
        stride,
        ..Settings::default()
    }
}

#[test]
fn grayscale_row_end_to_end() {
    // A buffer of the 256 byte values, grayscale, stride 1, width 256:
    // one row where pixel x has RGB (x, x, x).
    let data: Vec<u8> = (0..=255u8).collect();
    let settings = frame_settings(256, 256, 1, 1);
    let mut frame: Vec<u8> = vec![0; 4 * 256];
    let mut style = Grayscale;

    draw(&mut style, &data, &settings, &mut frame);

    for x in 0..256usize {
        let px = &frame[4 * x..4 * x + 4];
        let v = x as u8;
        assert_eq!(px, &[v, v, v, 255]);
    }
}

#[test]
fn pixels_beyond_width_are_transparent() {
    let data: Vec<u8> = vec![9; 64];
    // Logical width 4 on a canvas of 8: the right half of each row is
    // transparent even though the buffer has data.
    let settings = frame_settings(4, 8, 1, 1);
    let mut frame: Vec<u8> = vec![0xcc; 4 * 16];
    let mut style = Grayscale;

    draw(&mut style, &data, &settings, &mut frame);

    for p in 0..16usize {
        let px = &frame[4 * p..4 * p + 4];
        if p % 8 < 4 {
            assert_eq!(px, &[9, 9, 9, 255]);
        } else {
            assert_eq!(px, &[0, 0, 0, 0]);
        }
    }
}

#[test]
fn zoom_magnifies_nearest_neighbor() {
    let data: Vec<u8> = vec![10, 20, 30, 40];
    // Zoom level 2 doubles each logical pixel in both directions on a
    // 4-wide canvas of 2 rows.
    let settings = frame_settings(2, 4, 2, 1);
    let mut frame: Vec<u8> = vec![0; 4 * 8];
    let mut style = Grayscale;

    draw(&mut style, &data, &settings, &mut frame);

    let expected_rows = [[10u8, 10, 20, 20], [10, 10, 20, 20]];
    for (y, row) in expected_rows.iter().enumerate() {
        for (x, v) in row.iter().enumerate() {
            let p = 4 * (y * 4 + x);
            assert_eq!(&frame[p..p + 4], &[*v, *v, *v, 255]);
        }
    }
}

#[test]
fn draw_respects_offset_and_stride() {
    let data: Vec<u8> = (0..10u8).collect();
    let mut settings = frame_settings(3, 3, 1, 3);
    settings.offset = 1;
    settings.offset_fine = 1;
    let mut frame: Vec<u8> = vec![0; 4 * 3];
    let mut style = Grayscale;

    draw(&mut style, &data, &settings, &mut frame);

    // Strided access from start 2: bytes 2, 5, 8.
    assert_eq!(&frame[0..4], &[2, 2, 2, 255]);
    assert_eq!(&frame[4..8], &[5, 5, 5, 255]);
    assert_eq!(&frame[8..12], &[8, 8, 8, 255]);
}

#[test]
fn trailing_frame_bytes_are_untouched() {
    let data: Vec<u8> = vec![1];
    let settings = frame_settings(1, 1, 1, 1);
    let mut frame: Vec<u8> = vec![0xee; 7];
    let mut style = Colorful;

    draw(&mut style, &data, &settings, &mut frame);

    assert_eq!(&frame[0..4], &[1, 2, 4, 255]);
    assert_eq!(&frame[4..7], &[0xee, 0xee, 0xee]);
}

#[test]
fn settings_derived_quantities() {
    let mut s = Settings::default();
    assert_eq!(s.zoom_factor(), 1);
    s.zoom = 7;
    assert_eq!(s.zoom_factor(), 64);

    s.width = 10;
    s.stride = 2;
    assert_eq!(s.max_offset_fine(), 60);
    assert_eq!(s.max_width(), 2 * WIDTH as isize);
}

#[test]
fn settings_default_state() {
    let s = Settings::default();
    assert_eq!(s.zoom, 1);
    assert_eq!(s.zoom_range, (1, 7));
    assert_eq!(s.width, 1024);
    assert_eq!(s.offset, 0);
    assert_eq!(s.offset_fine, 0);
    assert_eq!(s.stride, 1);
    assert_eq!(s.max_stride, 128);
    assert!(s.pixel_style == PixelStyle::Colorful);
    assert!(s.datatype_settings.datatype == GuiDatatype::Integer16);
    assert!(s.datatype_settings.signedness == Signedness::Unsigned);
    assert!(s.datatype_settings.endianness == Endianness::Little);
    assert_eq!(s.buffer_length, 0);
    assert_eq!(s.canvas_width, WIDTH as isize);
    assert!(!s.hex_view_visible);
    assert_eq!(s.hex_view, "");
    assert_eq!(s.hex_ascii, "");
    assert!(!s.gui_wants_keyboard);
    assert!(!s.gui_wants_mouse);
}

#[test]
fn datatype_settings_select_decoder() {
    let mut ds = DatatypeSettings {
        datatype: GuiDatatype::Integer32,
        signedness: Signedness::Signed,
        endianness: Endianness::Big,
    };
    assert!(ds.selected_datatype() == Datatype::Integer32(Signedness::Signed));
    ds.datatype = GuiDatatype::Float64;
    assert!(ds.selected_datatype() == Datatype::Float64);
    ds.datatype = GuiDatatype::Integer8;
    ds.signedness = Signedness::Unsigned;
    assert!(ds.selected_datatype() == Datatype::Integer8(Signedness::Unsigned));
}
