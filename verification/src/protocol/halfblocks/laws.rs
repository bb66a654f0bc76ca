//! What half blocks show, cell by cell and byte by byte.
use vstd::prelude::*;

use crate::protocol::halfblocks::primitive::{brightness, cells, color_rgb, pixel, side_picked};
use crate::protocol::halfblocks::{Color, HalfBlock};
use crate::types::Size;

verus! {

/// Green counts most to the eye and blue least: the weights are in ten thousandths.
pub proof fn luminance_weighs_the_channels(r: u8, g: u8, b: u8)
    ensures
        brightness((r, g, b)) == 2126 * r + 7152 * g + 722 * b,
        0 <= brightness((r, g, b)) <= 10000 * 255,
{
}

/// What the named colors look like. A color that is reset is taken for white.
pub proof fn named_colors()
    ensures
        color_rgb(Color::Black) == (0u8, 0u8, 0u8),
        color_rgb(Color::Red) == (205u8, 0u8, 0u8),
        color_rgb(Color::Green) == (0u8, 205u8, 0u8),
        color_rgb(Color::Yellow) == (205u8, 205u8, 0u8),
        color_rgb(Color::Blue) == (0u8, 0u8, 238u8),
        color_rgb(Color::Magenta) == (205u8, 0u8, 205u8),
        color_rgb(Color::Cyan) == (0u8, 205u8, 205u8),
        color_rgb(Color::Gray) == (229u8, 229u8, 229u8),
        color_rgb(Color::DarkGray) == (127u8, 127u8, 127u8),
        color_rgb(Color::LightRed) == (255u8, 0u8, 0u8),
        color_rgb(Color::LightGreen) == (0u8, 255u8, 0u8),
        color_rgb(Color::LightYellow) == (255u8, 255u8, 0u8),
        color_rgb(Color::LightBlue) == (92u8, 92u8, 255u8),
        color_rgb(Color::LightMagenta) == (255u8, 0u8, 255u8),
        color_rgb(Color::LightCyan) == (0u8, 255u8, 255u8),
        color_rgb(Color::White) == (255u8, 255u8, 255u8),
        color_rgb(Color::Reset) == (255u8, 255u8, 255u8),
{
}

/// The first sixteen numbers stand for the named colors, dark ones before light ones.
pub proof fn numbers_of_named_colors()
    ensures
        color_rgb(Color::Indexed(0)) == color_rgb(Color::Black),
        color_rgb(Color::Indexed(1)) == color_rgb(Color::Red),
        color_rgb(Color::Indexed(2)) == color_rgb(Color::Green),
        color_rgb(Color::Indexed(3)) == color_rgb(Color::Yellow),
        color_rgb(Color::Indexed(4)) == color_rgb(Color::Blue),
        color_rgb(Color::Indexed(5)) == color_rgb(Color::Magenta),
        color_rgb(Color::Indexed(6)) == color_rgb(Color::Cyan),
        color_rgb(Color::Indexed(7)) == color_rgb(Color::Gray),
        color_rgb(Color::Indexed(8)) == color_rgb(Color::DarkGray),
        color_rgb(Color::Indexed(9)) == color_rgb(Color::LightRed),
        color_rgb(Color::Indexed(10)) == color_rgb(Color::LightGreen),
        color_rgb(Color::Indexed(11)) == color_rgb(Color::LightYellow),
        color_rgb(Color::Indexed(12)) == color_rgb(Color::LightBlue),
        color_rgb(Color::Indexed(13)) == color_rgb(Color::LightMagenta),
        color_rgb(Color::Indexed(14)) == color_rgb(Color::LightCyan),
        color_rgb(Color::Indexed(15)) == color_rgb(Color::White),
{
}

/// The next 216 numbers count through a cube, blue fastest, with six steps of each channel.
pub proof fn numbers_of_the_cube(r: int, g: int, b: int)
    requires
        0 <= r < 6,
        0 <= g < 6,
        0 <= b < 6,
    ensures
        ({
            let level = seq![0u8, 95, 135, 175, 215, 255];
            color_rgb(Color::Indexed((16 + 36 * r + 6 * g + b) as u8)) == (
                level[r],
                level[g],
                level[b],
            )
        }),
{
    let i = (16 + 36 * r + 6 * g + b) as u8;
    assert((i - 16) / 36 == r);
    assert((i - 16) / 6 == 6 * r + g);
    assert((i - 16) / 6 % 6 == g);
    assert((i - 16) % 6 == b);
}

/// The last 24 numbers are grays, ten apart, from almost black to almost white.
pub proof fn numbers_of_grays(step: int)
    requires
        0 <= step < 24,
    ensures
        ({
            let gray = (8 + 10 * step) as u8;
            color_rgb(Color::Indexed((232 + step) as u8)) == (gray, gray, gray)
        }),
{
}

/// A color that is given by its channels is taken as it is.
pub proof fn colors_of_channels(r: u8, g: u8, b: u8)
    ensures
        color_rgb(Color::Rgb(r, g, b)) == (r, g, b),
{
}

/// To pick a side is to empty a cell of one color, to put the brighter color in front where it is
/// the lower one, and else to change nothing.
pub proof fn sides_are_picked_by_brightness(block: HalfBlock)
    ensures
        ({
            let (r, g, b) = color_rgb(block.upper);
            let (s, h, c) = color_rgb(block.lower);
            let above = 2126 * r + 7152 * g + 722 * b;
            let below = 2126 * s + 7152 * h + 722 * c;
            let picked = side_picked(block);
            &&& block.upper == block.lower ==> picked.upper == block.upper && picked.lower
                == block.lower && picked.char == ' '
            &&& block.upper != block.lower && below > above ==> picked.upper == block.lower
                && picked.lower == block.upper && picked.char == '\u{2584}'
            &&& block.upper != block.lower && below <= above ==> picked == block
        }),
{
}

/// A cell shows the two pixels that stand in its place: the bytes of the upper one over the bytes of
/// the lower one, in the column of the cell and the two rows that it covers. The brighter one is
/// drawn, as the half that it is, and nothing is drawn where the two are one color.
pub proof fn cells_show_the_bytes(bytes: Seq<u8>, size: Size, x: int, y: int)
    requires
        0 <= x < size.width,
        0 <= y < size.height,
    ensures
        cells(bytes, size).len() == size.width * size.height,
        0 <= size.width * y + x < cells(bytes, size).len(),
        ({
            let i = 3 * (size.width * (2 * y) + x);
            let j = 3 * (size.width * (2 * y + 1) + x);
            let top = Color::Rgb(bytes[i], bytes[i + 1], bytes[i + 2]);
            let bottom = Color::Rgb(bytes[j], bytes[j + 1], bytes[j + 2]);
            let above = 2126 * bytes[i] + 7152 * bytes[i + 1] + 722 * bytes[i + 2];
            let below = 2126 * bytes[j] + 7152 * bytes[j + 1] + 722 * bytes[j + 2];
            cells(bytes, size)[size.width * y + x] == (if top == bottom {
                HalfBlock { upper: top, lower: top, char: ' ' }
            } else if below > above {
                HalfBlock { upper: bottom, lower: top, char: '\u{2584}' }
            } else {
                HalfBlock { upper: top, lower: bottom, char: '\u{2580}' }
            })
        }),
{
    let w = size.width as int;
    let h = size.height as int;
    let p = w * y + x;
    assert(0 <= w * y && w * y + w <= w * h) by (nonlinear_arith)
        requires
            0 <= y,
            y + 1 <= h,
            0 < w,
    ;
    assert(w * y == y * w) by (nonlinear_arith);
    vstd::arithmetic::div_mod::lemma_fundamental_div_mod_converse(p, w, y, x);
}

/// No byte is shown twice: the pixels of two places lie apart, within the bytes of the area.
pub proof fn pixels_lie_apart(size: Size, x: int, y: int, u: int, v: int)
    requires
        0 <= x < size.width,
        0 <= u < size.width,
        0 <= y < 2 * size.height,
        0 <= v < 2 * size.height,
        (x, y) != (u, v),
    ensures
        ({
            let i = 3 * (size.width * y + x);
            let j = 3 * (size.width * v + u);
            &&& i + 3 <= j || j + 3 <= i
            &&& 0 <= i && i + 3 <= 6 * (size.width * size.height)
            &&& forall|bytes: Seq<u8>| #[trigger]
                pixel(bytes, size.width as int, x, y) == Color::Rgb(
                    bytes[i],
                    bytes[i + 1],
                    bytes[i + 2],
                )
        }),
{
    let w = size.width as int;
    let h = size.height as int;
    assert(w * y + w <= w * v || w * v + w <= w * y || y == v) by (nonlinear_arith)
        requires
            0 < w,
    ;
    assert(0 <= w * y && w * y + w <= 2 * (w * h)) by (nonlinear_arith)
        requires
            0 <= y,
            y + 1 <= 2 * h,
            0 < w,
    ;
}

} // verus!
