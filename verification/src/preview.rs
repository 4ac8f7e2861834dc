use crate::settings::Settings;
use crate::view::View;
use crate::view::byte_of;
use vstd::prelude::*;
use vstd::view::View as _;

verus! {

/// The lowercase hex digit for a value below sixteen, as an ASCII byte.
pub open spec fn hex_digit(d: int) -> u8 {
    if d < 10 {
        (0x30 + d) as u8
    } else {
        (0x57 + d) as u8
    }
}

/// The hex digits of `a` without padding, most significant first.
pub open spec fn hex_digits(a: int) -> Seq<u8>
    decreases a,
{
    if a < 16 {
        seq![hex_digit(a)]
    } else {
        hex_digits(a / 16).push(hex_digit(a % 16))
    }
}

/// `n` ASCII zero digits (none for a nonpositive `n`).
pub open spec fn zero_digits(n: int) -> Seq<u8> {
    Seq::new(
        if n >= 0 {
            n as nat
        } else {
            0
        },
        |k: int| 0x30u8,
    )
}

/// `a` in hex, zero-padded to at least eight digits: the address column.
pub open spec fn hex_address(a: int) -> Seq<u8> {
    zero_digits(8 - hex_digits(a).len()) + hex_digits(a)
}

/// The three bytes `"xx "` that render one data byte in the hex pane.
pub open spec fn byte_hex(b: u8) -> Seq<u8> {
    seq![hex_digit(b as int / 16), hex_digit(b as int % 16), 0x20u8]
}

/// Whether a byte is a printable, non-space ASCII character.
pub open spec fn is_graphic_byte(b: u8) -> bool {
    0x21 <= b <= 0x7e
}

/// The classification glyph of a byte in the ASCII pane: the byte itself
/// when printable ASCII or a space, else a placeholder dot.
pub open spec fn display_byte(b: u8) -> u8 {
    if is_graphic_byte(b) || b == 0x20 {
        b
    } else {
        0x2e
    }
}

/// What position `i` contributes to the hex pane: a line break and the
/// address column at the start of each row of `w` positions, a column gap
/// every eight positions, then the byte in hex — or two blanks where the
/// read falls outside the buffer.
pub open spec fn hex_piece(data: Seq<u8>, start: int, w: int, i: int) -> Seq<u8> {
    let prefix = if i % w == 0 {
        (if i > 0 {
            seq![0x0au8]
        } else {
            Seq::<u8>::empty()
        }) + hex_address(start + i) + seq![0x3au8, 0x20u8]
    } else if (i % w) % 8 == 0 {
        seq![0x20u8]
    } else {
        Seq::<u8>::empty()
    };
    prefix + (match byte_of(data, start, 1, i) {
        Some(b) => byte_hex(b),
        None => seq![0x20u8, 0x20u8],
    })
}

/// What position `i` contributes to the ASCII pane: a line break at the
/// start of each row but the first, then the byte's glyph — or a blank
/// where the read falls outside the buffer.
pub open spec fn ascii_piece(data: Seq<u8>, start: int, w: int, i: int) -> Seq<u8> {
    (if i % w == 0 && i > 0 {
        seq![0x0au8]
    } else {
        Seq::<u8>::empty()
    }) + (match byte_of(data, start, 1, i) {
        Some(b) => seq![display_byte(b)],
        None => seq![0x20u8],
    })
}

/// The hex pane over the first `n` positions.
pub open spec fn hex_dump(data: Seq<u8>, start: int, w: int, n: int) -> Seq<u8>
    decreases n,
{
    if n <= 0 {
        Seq::empty()
    } else {
        hex_dump(data, start, w, n - 1) + hex_piece(data, start, w, n - 1)
    }
}

/// The ASCII pane over the first `n` positions.
pub open spec fn ascii_dump(data: Seq<u8>, start: int, w: int, n: int) -> Seq<u8>
    decreases n,
{
    if n <= 0 {
        Seq::empty()
    } else {
        ascii_dump(data, start, w, n - 1) + ascii_piece(data, start, w, n - 1)
    }
}

/// The hex digit for a value below sixteen.
fn hex_digit_byte(d: u64) -> (r: u8)
    requires
        d < 16,
    ensures
        r == hex_digit(d as int),
{
    if d < 10 {
        0x30 + (d as u8)
    } else {
        0x57 + (d as u8)
    }
}

/// Appends the unpadded hex digits of `a`.
fn push_hex_digits(out: &mut Vec<u8>, a: u64)
    ensures
        final (out)@ == old(out)@ + hex_digits(a as int),
    decreases a,
{
    if a < 16 {
        out.push(hex_digit_byte(a));
        proof {
            assert(out@ =~= old(out)@ + hex_digits(a as int));
        }
    } else {
        proof {
            vstd::arithmetic::div_mod::lemma_div_decreases(a as int, 16);
        }
        push_hex_digits(out, a / 16);
        out.push(hex_digit_byte(a % 16));
        proof {
            assert(out@ =~= old(out)@ + hex_digits(a as int));
        }
    }
}

/// Appends the address column for `a`: its hex digits, zero-padded to at
/// least eight.
#[verifier::loop_isolation(false)]
fn push_hex_address(out: &mut Vec<u8>, a: u64)
    ensures
        final (out)@ == old(out)@ + hex_address(a as int),
{
    let mut digits: Vec<u8> = Vec::new();
    push_hex_digits(&mut digits, a);
    let nd = digits.len();
    let pad: usize = if nd >= 8 {
        0
    } else {
        8 - nd
    };
    let mut z: usize = 0;
    while z < pad
        invariant
            z <= pad,
            out@ == old(out)@ + zero_digits(z as int),
        decreases pad - z,
    {
        out.push(0x30);
        proof {
            assert(out@ =~= old(out)@ + zero_digits(z + 1));
        }
        z = z + 1;
    }
    out.append(&mut digits);
    proof {
        assert(out@ =~= old(out)@ + hex_address(a as int));
    }
}

/// Appends the three bytes `"xx "` that render the data byte `b`.
fn push_byte_hex(out: &mut Vec<u8>, b: u8)
    ensures
        final (out)@ == old(out)@ + byte_hex(b),
{
    out.push(hex_digit_byte((b / 16) as u64));
    out.push(hex_digit_byte((b % 16) as u64));
    out.push(0x20);
    proof {
        assert(out@ =~= old(out)@ + byte_hex(b));
    }
}

/// Renders the two panes of a hex/ASCII preview of `height` rows of `width`
/// positions each, reading bytes at stride one from `start`.  Both panes
/// consist of ASCII bytes only.
#[verifier::loop_isolation(false)]
#[verifier::rlimit(100)]
pub fn hex_preview(data: &[u8], start: isize, width: isize, height: isize) -> (r: (Vec<u8>, Vec<
    u8,
>))
    requires
        0 <= start,
        1 <= width,
        0 <= height,
        width * height <= 0x10000,
        start + width * height <= isize::MAX,
    ensures
        r.0@ == hex_dump(data@, start as int, width as int, width * height),
        r.1@ == ascii_dump(data@, start as int, width as int, width * height),
{
    let view = View::new(data, start, 1);
    let count = (width * height) as usize;
    let w = width as usize;
    let mut hex: Vec<u8> = Vec::new();
    let mut ascii: Vec<u8> = Vec::new();
    let mut i: usize = 0;
    while i < count
        invariant
            i <= count,
            hex@ == hex_dump(data@, start as int, width as int, i as int),
            ascii@ == ascii_dump(data@, start as int, width as int, i as int),
        decreases count - i,
    {
        let ghost hex0 = hex@;
        let ghost ascii0 = ascii@;
        if i % w == 0 {
            if i > 0 {
                hex.push(0x0a);
                ascii.push(0x0a);
            }
            push_hex_address(&mut hex, (start as u64) + (i as u64));
            hex.push(0x3a);
            hex.push(0x20);
            proof {
                assert(hex@ =~= hex0 + (if i > 0 {
                    seq![0x0au8]
                } else {
                    Seq::<u8>::empty()
                }) + hex_address(start + i) + seq![0x3au8, 0x20u8]);
            }
        } else if (i % w) % 8 == 0 {
            hex.push(0x20);
            proof {
                assert(hex@ =~= hex0 + seq![0x20u8]);
            }
        }
        let ghost hex1 = hex@;
        match view.byte_at(i as isize) {
            Some(b) => {
                push_byte_hex(&mut hex, b);
                let d: u8 = if (0x21 <= b && b <= 0x7e) || b == 0x20 {
                    b
                } else {
                    0x2e
                };
                ascii.push(d);
            },
            None => {
                hex.push(0x20);
                hex.push(0x20);
                ascii.push(0x20);
                proof {
                    assert(hex@ =~= hex1 + seq![0x20u8, 0x20u8]);
                }
            },
        }
        proof {
            let piece = hex_piece(data@, start as int, width as int, i as int);
            assert(hex@ =~= hex0 + piece);
            assert(hex_dump(data@, start as int, width as int, i + 1) == hex_dump(
                data@,
                start as int,
                width as int,
                i as int,
            ) + piece);
            assert(hex@ =~= hex_dump(data@, start as int, width as int, i + 1));
            let apiece = ascii_piece(data@, start as int, width as int, i as int);
            assert(ascii@ =~= ascii0 + apiece);
            assert(ascii@ =~= ascii_dump(data@, start as int, width as int, i + 1));
        }
        i = i + 1;
    }
    (hex, ascii)
}

/// The characters denoted by a sequence of ASCII bytes.
pub open spec fn chars_of(s: Seq<u8>) -> Seq<char> {
    s.map_values(|b: u8| b as char)
}

/// Relies on String::from_utf8: bytes below 0x80 are valid UTF-8, and each
/// decodes to exactly one character, the one with that code.
#[verifier::external_body]
fn ascii_to_string(bytes: Vec<u8>) -> (s: String)
    requires
        forall|k: int| 0 <= k < bytes@.len() ==> bytes@[k] < 0x80,
    ensures
        s@ == chars_of(bytes@),
{
    String::from_utf8(bytes).unwrap_or_default()
}

/// Every byte of an unpadded hex rendering of a nonnegative value is ASCII.
proof fn lemma_hex_digits_ascii(a: int)
    requires
        a >= 0,
    ensures
        forall|k: int| 0 <= k < hex_digits(a).len() ==> #[trigger] hex_digits(a)[k] < 0x80,
    decreases a,
{
    if a < 16 {
        assert(hex_digits(a) == seq![hex_digit(a)]);
        assert(hex_digits(a)[0] < 0x80);
    } else {
        lemma_hex_digits_ascii(a / 16);
        assert forall|k: int| 0 <= k < hex_digits(a).len() implies #[trigger] hex_digits(a)[k]
            < 0x80 by {
            if k == hex_digits(a).len() - 1 {
                assert(hex_digits(a)[k] == hex_digit(a % 16));
            } else {
                assert(hex_digits(a)[k] == hex_digits(a / 16)[k]);
            }
        }
    }
}

/// Every byte of one hex-pane contribution is ASCII.
proof fn lemma_hex_piece_ascii(data: Seq<u8>, start: int, w: int, i: int)
    requires
        start >= 0,
        i >= 0,
        w >= 1,
    ensures
        forall|k: int| 0 <= k < hex_piece(data, start, w, i).len() ==> #[trigger] hex_piece(
            data,
            start,
            w,
            i,
        )[k] < 0x80,
{
    lemma_hex_digits_ascii(start + i);
    let digits = hex_digits(start + i);
    let addr = hex_address(start + i);
    assert forall|k: int| 0 <= k < addr.len() implies #[trigger] addr[k] < 0x80 by {
        if k < addr.len() - digits.len() {
            assert(addr[k] == 0x30);
        } else {
            assert(addr[k] == digits[k - (addr.len() - digits.len())]);
        }
    }
}

/// Every byte of the hex pane is ASCII.
proof fn lemma_hex_dump_ascii(data: Seq<u8>, start: int, w: int, n: int)
    requires
        start >= 0,
        w >= 1,
    ensures
        forall|k: int| 0 <= k < hex_dump(data, start, w, n).len() ==> #[trigger] hex_dump(
            data,
            start,
            w,
            n,
        )[k] < 0x80,
    decreases n,
{
    if n > 0 {
        lemma_hex_dump_ascii(data, start, w, n - 1);
        lemma_hex_piece_ascii(data, start, w, n - 1);
        let prev = hex_dump(data, start, w, n - 1);
        let piece = hex_piece(data, start, w, n - 1);
        assert forall|k: int| 0 <= k < hex_dump(data, start, w, n).len() implies #[trigger] hex_dump(
            data,
            start,
            w,
            n,
        )[k] < 0x80 by {
            if k < prev.len() {
                assert(hex_dump(data, start, w, n)[k] == prev[k]);
            } else {
                assert(hex_dump(data, start, w, n)[k] == piece[k - prev.len()]);
            }
        }
    }
}

/// Every byte of the ASCII pane is ASCII.
proof fn lemma_ascii_dump_ascii(data: Seq<u8>, start: int, w: int, n: int)
    requires
        w >= 1,
    ensures
        forall|k: int| 0 <= k < ascii_dump(data, start, w, n).len() ==> #[trigger] ascii_dump(
            data,
            start,
            w,
            n,
        )[k] < 0x80,
    decreases n,
{
    if n > 0 {
        lemma_ascii_dump_ascii(data, start, w, n - 1);
        let prev = ascii_dump(data, start, w, n - 1);
        let piece = ascii_piece(data, start, w, n - 1);
        assert forall|k: int| 0 <= k < piece.len() implies #[trigger] piece[k] < 0x80 by {}
        assert forall|k: int| 0 <= k < ascii_dump(data, start, w, n).len() implies #[trigger] ascii_dump(
            data,
            start,
            w,
            n,
        )[k] < 0x80 by {
            if k < prev.len() {
                assert(ascii_dump(data, start, w, n)[k] == prev[k]);
            } else {
                assert(ascii_dump(data, start, w, n)[k] == piece[k - prev.len()]);
            }
        }
    }
}

/// Recomputes the hex/ASCII preview panes into the settings record, reading
/// from `offset + offset_fine` at stride one: up to 32 positions per row
/// (the configured width times the stride, capped), 24 rows.  Does nothing
/// when the preview pane is hidden.
pub fn update_hex_view(settings: &mut Settings, data: &[u8])
    requires
        1 <= old(settings).width,
        1 <= old(settings).stride,
        old(settings).width * old(settings).stride <= isize::MAX,
        0 <= old(settings).offset + old(settings).offset_fine,
        old(settings).offset + old(settings).offset_fine <= isize::MAX - 768,
    ensures
        !old(settings).hex_view_visible ==> *final (settings) == *old(settings),
        old(settings).hex_view_visible ==> ({
            let start = old(settings).offset + old(settings).offset_fine;
            let w = if old(settings).width * old(settings).stride < 32 {
                old(settings).width * old(settings).stride
            } else {
                32int
            };
            &&& final (settings).hex_view@ == chars_of(hex_dump(data@, start, w, w * 24))
            &&& final (settings).hex_ascii@ == chars_of(ascii_dump(data@, start, w, w * 24))
            &&& final (settings).zoom == old(settings).zoom
            &&& final (settings).zoom_range == old(settings).zoom_range
            &&& final (settings).width == old(settings).width
            &&& final (settings).offset == old(settings).offset
            &&& final (settings).offset_fine == old(settings).offset_fine
            &&& final (settings).stride == old(settings).stride
            &&& final (settings).max_stride == old(settings).max_stride
            &&& final (settings).pixel_style == old(settings).pixel_style
            &&& final (settings).datatype_settings == old(settings).datatype_settings
            &&& final (settings).buffer_length == old(settings).buffer_length
            &&& final (settings).canvas_width == old(settings).canvas_width
            &&& final (settings).hex_view_visible == old(settings).hex_view_visible
            &&& final (settings).gui_wants_keyboard == old(settings).gui_wants_keyboard
            &&& final (settings).gui_wants_mouse == old(settings).gui_wants_mouse
        }),
{
    if !settings.hex_view_visible {
        return ;
    }
    let start = settings.offset + settings.offset_fine;
    let row = settings.width * settings.stride;
    proof {
        assert(settings.width * settings.stride >= 1) by (nonlinear_arith)
            requires
                settings.width >= 1,
                settings.stride >= 1,
        ;
    }
    let w = if row < 32 {
        row
    } else {
        32
    };
    let (hex, ascii) = hex_preview(data, start, w, 24);
    proof {
        lemma_hex_dump_ascii(data@, start as int, w as int, w * 24);
        lemma_ascii_dump_ascii(data@, start as int, w as int, w * 24);
    }
    settings.hex_view = ascii_to_string(hex);
    settings.hex_ascii = ascii_to_string(ascii);
}

} // verus!
