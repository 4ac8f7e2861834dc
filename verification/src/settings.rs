use crate::datatype::Datatype;
use crate::datatype::Endianness;
use crate::datatype::Signedness;
use vstd::arithmetic::power2::pow2;
use vstd::prelude::*;

verus! {

/// The fixed canvas width of a frame, in pixels.
pub const WIDTH: u32 = 1366;

/// The fixed canvas height of a frame, in pixels.
pub const HEIGHT: u32 = 800;

/// The selectable pixel styles.
#[derive(Clone, Copy, PartialEq, Eq, Structural, Debug)]
pub enum PixelStyle {
    Grayscale,
    Colorful,
    Category,
    Entropy,
    GradientMagma,
    GradientPlasma,
    GradientViridis,
    GradientRainbow,
    GradientTurbo,
    GradientCubehelix,
    Rgba,
    Abgr,
    Rgb,
    Bgr,
    Datatype,
}

/// The numeric width selectable for the datatype style, without its
/// signedness.
#[derive(Clone, Copy, PartialEq, Eq, Structural, Debug)]
pub enum GuiDatatype {
    Integer8,
    Integer16,
    Integer32,
    Integer64,
    Float32,
    Float64,
}

/// The sub-configuration of the datatype style: which numeric width to
/// decode, with which signedness and byte order.
#[derive(Clone, Copy, PartialEq, Eq, Structural, Debug)]
pub struct DatatypeSettings {
    pub datatype: GuiDatatype,
    pub signedness: Signedness,
    pub endianness: Endianness,
}

impl DatatypeSettings {
    /// The decoder datatype that these settings select: the signedness
    /// applies to the integer widths and is ignored for the float ones.
    pub open spec fn spec_selected_datatype(&self) -> Datatype {
        match self.datatype {
            GuiDatatype::Integer8 => Datatype::Integer8(self.signedness),
            GuiDatatype::Integer16 => Datatype::Integer16(self.signedness),
            GuiDatatype::Integer32 => Datatype::Integer32(self.signedness),
            GuiDatatype::Integer64 => Datatype::Integer64(self.signedness),
            GuiDatatype::Float32 => Datatype::Float32,
            GuiDatatype::Float64 => Datatype::Float64,
        }
    }

    pub fn selected_datatype(&self) -> (d: Datatype)
        ensures
            d == self.spec_selected_datatype(),
    {
        match self.datatype {
            GuiDatatype::Integer8 => Datatype::Integer8(self.signedness),
            GuiDatatype::Integer16 => Datatype::Integer16(self.signedness),
            GuiDatatype::Integer32 => Datatype::Integer32(self.signedness),
            GuiDatatype::Integer64 => Datatype::Integer64(self.signedness),
            GuiDatatype::Float32 => Datatype::Float32,
            GuiDatatype::Float64 => Datatype::Float64,
        }
    }
}

/// The per-session presentation state, owned by the surrounding application
/// and read by the core once per frame.  The application clamps each field
/// into its documented range between frames; the core's reads stay defensive
/// regardless.  The numeric range of the datatype style lives with the
/// application, next to the code that consumes it.
pub struct Settings {
    pub zoom: isize,
    pub zoom_range: (isize, isize),
    pub width: isize,
    pub offset: isize,
    pub offset_fine: isize,
    pub stride: isize,
    pub max_stride: isize,
    pub pixel_style: PixelStyle,
    pub datatype_settings: DatatypeSettings,
    pub buffer_length: isize,
    pub canvas_width: isize,
    pub hex_view_visible: bool,
    pub hex_view: String,
    pub hex_ascii: String,
    pub gui_wants_keyboard: bool,
    pub gui_wants_mouse: bool,
}

impl Settings {
    /// The nearest-neighbor magnification factor, two to the power of one
    /// less than the zoom level.
    pub open spec fn spec_zoom_factor(&self) -> int {
        pow2((self.zoom - 1) as nat) as int
    }

    pub fn zoom_factor(&self) -> (f: isize)
        requires
            1 <= self.zoom <= 30,
        ensures
            f == self.spec_zoom_factor(),
            f >= 1,
    {
        proof {
            vstd::arithmetic::power2::lemma2_to64();
        }
        let mut f: isize = 1;
        let mut k: isize = 0;
        while k < self.zoom - 1
            invariant
                0 <= k <= self.zoom - 1 <= 29,
                f == pow2(k as nat),
                f <= 0x2000_0000,
            decreases self.zoom - 1 - k,
        {
            proof {
                vstd::arithmetic::power2::lemma_pow2_unfold((k + 1) as nat);
                vstd::arithmetic::power2::lemma2_to64();
                if k + 1 < 29 {
                    vstd::arithmetic::power2::lemma_pow2_strictly_increases((k + 1) as nat, 29nat);
                }
            }
            f = f * 2;
            k = k + 1;
        }
        proof {
            vstd::arithmetic::power2::lemma_pow2_pos((self.zoom - 1) as nat);
        }
        f
    }

    /// The largest fine offset the application lets the user select: three
    /// rows' worth of bytes.
    pub fn max_offset_fine(&self) -> (m: isize)
        requires
            0 <= self.width,
            1 <= self.stride,
            3 * self.width * self.stride <= isize::MAX,
        ensures
            m == 3 * self.width * self.stride,
    {
        proof {
            assert(3 * self.width <= 3 * self.width * self.stride && (3 * self.width)
                * self.stride == 3 * self.width * self.stride) by (nonlinear_arith)
                requires
                    0 <= self.width,
                    1 <= self.stride,
            ;
        }
        3 * self.width * self.stride
    }

    /// The largest logical width the application lets the user select:
    /// twice the canvas width.
    pub fn max_width(&self) -> (m: isize)
        ensures
            m == 2 * WIDTH,
    {
        2 * (WIDTH as isize)
    }
}

impl core::default::Default for Settings {
    /// The state a session starts from: zoom and stride at one, offsets at
    /// zero, the colorful style, little-endian unsigned 16-bit datatype
    /// settings, and an empty hex preview.
    fn default() -> (s: Settings)
        ensures
            s.zoom == 1,
            s.zoom_range == (1isize, 7isize),
            s.width == 1024,
            s.offset == 0,
            s.offset_fine == 0,
            s.stride == 1,
            s.max_stride == 128,
            s.pixel_style == PixelStyle::Colorful,
            s.datatype_settings == (DatatypeSettings {
                datatype: GuiDatatype::Integer16,
                signedness: Signedness::Unsigned,
                endianness: Endianness::Little,
            }),
            s.buffer_length == 0,
            s.canvas_width == WIDTH,
            s.hex_view_visible == false,
            s.hex_view@ == Seq::<char>::empty(),
            s.hex_ascii@ == Seq::<char>::empty(),
            s.gui_wants_keyboard == false,
            s.gui_wants_mouse == false,
    {
        Settings {
            zoom: 1,
            zoom_range: (1, 7),
            width: 1024,
            offset: 0,
            offset_fine: 0,
            stride: 1,
            max_stride: 128,
            pixel_style: PixelStyle::Colorful,
            datatype_settings: DatatypeSettings {
                datatype: GuiDatatype::Integer16,
                signedness: Signedness::Unsigned,
                endianness: Endianness::Little,
            },
            buffer_length: 0,
            canvas_width: WIDTH as isize,
            hex_view_visible: false,
            hex_view: String::new(),
            hex_ascii: String::new(),
            gui_wants_keyboard: false,
            gui_wants_mouse: false,
        }
    }
}

} // verus!
