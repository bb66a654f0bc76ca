//! Half blocks with the characters for the upper and the lower half of a cell.
use vstd::prelude::*;

use crate::images;
use crate::protocol::halfblocks::{Color, HalfBlock};
use crate::types::Size;

verus! {

/// The upper half of a cell.
pub const HALF_UPPER: char = '\u{2580}';

/// The lower half of a cell.
pub const HALF_LOWER: char = '\u{2584}';

/// None of a cell.
pub const SPACE: char = ' ';

/// How bright a color is to the eye, from 0 to 2550000.
pub open spec fn brightness(rgb: (u8, u8, u8)) -> int {
    2126 * rgb.0 + 7152 * rgb.1 + 722 * rgb.2
}

/// The value of one of six steps of a color in the cube of 216 colors.
pub open spec fn cube_level(step: int) -> u8 {
    if step == 0 {
        0
    } else {
        (55 + 40 * step) as u8
    }
}

/// The color of the terminal that the first sixteen numbers stand for.
pub open spec fn named(i: u8) -> Color {
    match i {
        0 => Color::Black,
        1 => Color::Red,
        2 => Color::Green,
        3 => Color::Yellow,
        4 => Color::Blue,
        5 => Color::Magenta,
        6 => Color::Cyan,
        7 => Color::Gray,
        8 => Color::DarkGray,
        9 => Color::LightRed,
        10 => Color::LightGreen,
        11 => Color::LightYellow,
        12 => Color::LightBlue,
        13 => Color::LightMagenta,
        14 => Color::LightCyan,
        _ => Color::White,
    }
}

/// Red, green and blue of a named color. A color that is reset counts as white.
pub open spec fn named_rgb(color: Color) -> (u8, u8, u8) {
    match color {
        Color::Black => (0, 0, 0),
        Color::Red => (205, 0, 0),
        Color::Green => (0, 205, 0),
        Color::Yellow => (205, 205, 0),
        Color::Blue => (0, 0, 238),
        Color::Magenta => (205, 0, 205),
        Color::Cyan => (0, 205, 205),
        Color::Gray => (229, 229, 229),
        Color::DarkGray => (127, 127, 127),
        Color::LightRed => (255, 0, 0),
        Color::LightGreen => (0, 255, 0),
        Color::LightYellow => (255, 255, 0),
        Color::LightBlue => (92, 92, 255),
        Color::LightMagenta => (255, 0, 255),
        Color::LightCyan => (0, 255, 255),
        _ => (255, 255, 255),
    }
}

/// Red, green and blue of a numbered color: the named ones, then a cube of six steps for each of
/// red, green and blue, then 24 grays.
pub open spec fn indexed_rgb(i: u8) -> (u8, u8, u8) {
    if i < 16 {
        named_rgb(named(i))
    } else if i < 232 {
        (
            cube_level((i - 16) / 36),
            cube_level((i - 16) / 6 % 6),
            cube_level((i - 16) % 6),
        )
    } else {
        let gray = (8 + 10 * (i - 232)) as u8;
        (gray, gray, gray)
    }
}

/// Red, green and blue of a color.
pub open spec fn color_rgb(color: Color) -> (u8, u8, u8) {
    match color {
        Color::Rgb(r, g, b) => (r, g, b),
        Color::Indexed(i) => indexed_rgb(i),
        _ => named_rgb(color),
    }
}

/// How bright a color is to the eye.
pub open spec fn color_brightness(color: Color) -> int {
    brightness(color_rgb(color))
}

/// The same cell with the brighter color in front, or empty where both colors are one.
pub open spec fn side_picked(block: HalfBlock) -> HalfBlock {
    if block.upper == block.lower {
        HalfBlock { char: SPACE, ..block }
    } else if color_brightness(block.lower) > color_brightness(block.upper) {
        HalfBlock { upper: block.lower, lower: block.upper, char: HALF_LOWER }
    } else {
        block
    }
}

/// The cell that shows one color over another.
pub open spec fn cell(top: Color, bottom: Color) -> HalfBlock {
    side_picked(HalfBlock { upper: top, lower: bottom, char: HALF_UPPER })
}

/// The pixel in a column and row of an image of that width.
pub open spec fn pixel(bytes: Seq<u8>, width: int, x: int, y: int) -> Color {
    let i = 3 * (width * y + x);
    Color::Rgb(bytes[i], bytes[i + 1], bytes[i + 2])
}

/// The cells of an image that has the width of the area and twice its height: each shows the two
/// pixels that stand in its place, one over the other.
pub open spec fn cells(bytes: Seq<u8>, size: Size) -> Seq<HalfBlock> {
    let w = size.width as int;
    Seq::new(
        (size.width * size.height) as nat,
        |p: int|
            cell(
                pixel(bytes, w, p % w, 2 * (p / w)),
                pixel(bytes, w, p % w, 2 * (p / w) + 1),
            ),
    )
}

/// Fills an area with an image, resized to two pixels for each cell.
pub fn encode(img: &image::DynamicImage, size: Size) -> (r: Vec<HalfBlock>)
    ensures
        r@ == cells(
            images::resized_rgb8(*img, size.width as u32, (size.height * 2) as u32),
            size,
        ),
        images::dimensions(*img) == (size.width as u32, (size.height * 2) as u32) ==> r@ == cells(
            images::rgb8(*img),
            size,
        ),
{
    let width = size.width as u32;
    let height = u32::from(size.height) * 2;
    let resized = images::resize_exact(img, width, height);
    let bytes = images::to_rgb8(&resized);
    assert(3 * width * height == 6 * (size.width * size.height)) by (nonlinear_arith)
        requires
            width == size.width,
            height == 2 * size.height,
    ;
    proof {
        if images::dimensions(*img) == (width, height) {
            lemma_cells_of_prefix(bytes@, images::rgb8(*img), size);
        }
    }
    encode_rgb8(&bytes, size)
}

/// What follows the bytes of an area makes no difference to its cells.
proof fn lemma_cells_of_prefix(bytes: Seq<u8>, longer: Seq<u8>, size: Size)
    requires
        bytes.len() == 6 * (size.width * size.height),
        bytes.is_prefix_of(longer),
    ensures
        cells(bytes, size) == cells(longer, size),
{
    let w = size.width as int;
    let h = size.height as int;
    assert forall|p: int| 0 <= p < w * h implies cells(bytes, size)[p] == cells(longer, size)[p] by {
        assert(w > 0) by (nonlinear_arith)
            requires
                0 <= p < w * h,
                w >= 0,
        ;
        lemma_cell_in_image(w, h, p);
        assert forall|i: int| 0 <= i < bytes.len() implies bytes[i] == longer[i] by {}
    }
    assert(cells(bytes, size) =~= cells(longer, size));
}

proof fn lemma_cell_in_image(w: int, h: int, p: int)
    requires
        0 <= p < w * h,
        0 < w,
    ensures
        0 <= p / w < h,
        0 <= p % w < w,
        0 <= w * (2 * (p / w)) + p % w,
        w * (2 * (p / w) + 1) + p % w < 2 * (w * h),
        w * (2 * (p / w) + 1) == w * (2 * (p / w)) + w,
{
    vstd::arithmetic::div_mod::lemma_fundamental_div_mod(p, w);
    vstd::arithmetic::div_mod::lemma_mod_bound(p, w);
    let y = p / w;
    let x = p % w;
    assert(0 <= y) by (nonlinear_arith)
        requires
            p == w * y + x,
            0 <= p,
            x < w,
            0 < w,
    ;
    assert(y < h) by (nonlinear_arith)
        requires
            p == w * y + x,
            p < w * h,
            0 <= x,
            0 < w,
    ;
    assert(0 <= w * (2 * y)) by (nonlinear_arith)
        requires
            0 <= y,
            0 < w,
    ;
    assert(w * (2 * y + 1) == w * (2 * y) + w) by (nonlinear_arith);
    assert(w * (2 * y + 1) + w <= 2 * (w * h)) by (nonlinear_arith)
        requires
            y + 1 <= h,
            0 < w,
    ;
}

/// The cells of an area from the bytes of an image that has the width of the area and twice its
/// height, three bytes for each pixel.
pub fn encode_rgb8(bytes: &Vec<u8>, size: Size) -> (r: Vec<HalfBlock>)
    requires
        bytes@.len() == 6 * (size.width * size.height),
    ensures
        r@ == cells(bytes@, size),
{
    let w = size.width as usize;
    assert(size.width * size.height <= 0xffff * 0xffff) by (nonlinear_arith)
        requires
            size.width <= 0xffff,
            size.height <= 0xffff,
    ;
    let count = w * size.height as usize;
    let len = bytes.len();
    let mut data: Vec<HalfBlock> = Vec::with_capacity(count);
    for p in 0..count
        invariant
            w == size.width,
            count == size.width * size.height,
            len == bytes@.len(),
            len == 6 * count,
            data@ == cells(bytes@, size).take(p as int),
    {
        assert(w > 0) by (nonlinear_arith)
            requires
                p < count,
                count == w * size.height,
                w >= 0,
        ;
        proof {
            lemma_cell_in_image(w as int, size.height as int, p as int);
        }
        let x = p % w;
        let y = p / w;
        assert(w * y <= w * (2 * y)) by (nonlinear_arith)
            requires
                w >= 0,
                y >= 0,
        ;
        assert(w * (2 * y) == 2 * (w * y)) by (nonlinear_arith);
        let top = 3 * (2 * (w * y) + x);
        let bottom = top + 3 * w;
        let mut block = HalfBlock {
            upper: Color::Rgb(bytes[top], bytes[top + 1], bytes[top + 2]),
            lower: Color::Rgb(bytes[bottom], bytes[bottom + 1], bytes[bottom + 2]),
            char: HALF_UPPER,
        };
        block.pick_side();
        data.push(block);
        assert(data@ =~= cells(bytes@, size).take(p + 1));
    }
    assert(cells(bytes@, size).take(count as int) =~= cells(bytes@, size));
    data
}

impl HalfBlock {
    /// Brings the brighter color to the front, and empties the cell where both colors are one.
    pub fn pick_side(&mut self)
        ensures
            *final(self) == side_picked(*old(self)),
    {
        if self.upper == self.lower {
            self.char = SPACE;
            return;
        }
        if HalfBlock::luminance(HalfBlock::rgb(self.lower)) > HalfBlock::luminance(
            HalfBlock::rgb(self.upper),
        ) {
            let upper = self.upper;
            self.upper = self.lower;
            self.lower = upper;
            self.char = HALF_LOWER;
        }
    }

    /// How bright a color is to the eye.
    pub fn luminance(rgb: (u8, u8, u8)) -> (r: u32)
        ensures
            r == brightness(rgb),
            r <= 2550000,
    {
        2126 * rgb.0 as u32 + 7152 * rgb.1 as u32 + 722 * rgb.2 as u32
    }

    /// Red, green and blue of a color. A color that is reset counts as white.
    pub fn rgb(color: Color) -> (r: (u8, u8, u8))
        ensures
            r == color_rgb(color),
    {
        match color {
            Color::Rgb(r, g, b) => (r, g, b),
            Color::Indexed(i) => HalfBlock::indexed_to_rgb(i),
            Color::Black => (0, 0, 0),
            Color::Red => (205, 0, 0),
            Color::Green => (0, 205, 0),
            Color::Yellow => (205, 205, 0),
            Color::Blue => (0, 0, 238),
            Color::Magenta => (205, 0, 205),
            Color::Cyan => (0, 205, 205),
            Color::Gray => (229, 229, 229),
            Color::DarkGray => (127, 127, 127),
            Color::LightRed => (255, 0, 0),
            Color::LightGreen => (0, 255, 0),
            Color::LightYellow => (255, 255, 0),
            Color::LightBlue => (92, 92, 255),
            Color::LightMagenta => (255, 0, 255),
            Color::LightCyan => (0, 255, 255),
            Color::White => (255, 255, 255),
            Color::Reset => (255, 255, 255),
        }
    }

    /// Red, green and blue of a numbered color.
    pub fn indexed_to_rgb(i: u8) -> (r: (u8, u8, u8))
        ensures
            r == indexed_rgb(i),
    {
        match i {
            0 => (0, 0, 0),
            1 => (205, 0, 0),
            2 => (0, 205, 0),
            3 => (205, 205, 0),
            4 => (0, 0, 238),
            5 => (205, 0, 205),
            6 => (0, 205, 205),
            7 => (229, 229, 229),
            8 => (127, 127, 127),
            9 => (255, 0, 0),
            10 => (0, 255, 0),
            11 => (255, 255, 0),
            12 => (92, 92, 255),
            13 => (255, 0, 255),
            14 => (0, 255, 255),
            15 => (255, 255, 255),
            16..=231 => {
                let step = i - 16;
                assert(step as int / 36 % 6 == step as int / 36);
                (
                    HalfBlock::cube_value(step / 36),
                    HalfBlock::cube_value(step / 6 % 6),
                    HalfBlock::cube_value(step % 6),
                )
            },
            _ => {
                let gray = 8 + (i - 232) * 10;
                (gray, gray, gray)
            },
        }
    }

    /// The value of one of six steps of a color.
    fn cube_value(step: u8) -> (r: u8)
        requires
            step < 6,
        ensures
            r == cube_level(step as int),
    {
        if step == 0 {
            0
        } else {
            55 + step * 40
        }
    }
}

/// The color in the upper half of a cell on the screen, where its character is one of the three.
pub open spec fn shown_above(block: HalfBlock) -> Color {
    if block.char == HALF_UPPER {
        block.upper
    } else {
        block.lower
    }
}

/// The color in the lower half of a cell on the screen, where its character is one of the three.
pub open spec fn shown_below(block: HalfBlock) -> Color {
    if block.char == HALF_LOWER {
        block.upper
    } else {
        block.lower
    }
}

/// Whichever side is picked, the cell shows the one color over the other.
pub proof fn picking_a_side_shows_the_same(top: Color, bottom: Color)
    ensures
        shown_above(cell(top, bottom)) == top,
        shown_below(cell(top, bottom)) == bottom,
{
}

/// The color in front is never the darker one.
pub proof fn brighter_color_in_front(block: HalfBlock)
    ensures
        color_brightness(side_picked(block).upper) >= color_brightness(side_picked(block).lower),
{
}

/// A side is picked once: to pick again changes nothing.
pub proof fn picking_twice_is_picking_once(block: HalfBlock)
    ensures
        side_picked(side_picked(block)) == side_picked(block),
{
}

/// A cell is empty exactly where its two colors are one.
pub proof fn one_color_is_a_space(top: Color, bottom: Color)
    ensures
        cell(top, bottom).char == SPACE <==> top == bottom,
{
}

/// There is one entry for each cell of the area, however many cells that are, and each shows the
/// pixel of the even row over that of the odd row.
pub proof fn every_cell_shows_its_pixels(bytes: Seq<u8>, size: Size, x: int, y: int)
    requires
        0 <= x < size.width,
        0 <= y < size.height,
    ensures
        cells(bytes, size).len() == size.width * size.height,
        0 <= size.width * y + x < cells(bytes, size).len(),
        shown_above(cells(bytes, size)[size.width * y + x]) == pixel(
            bytes,
            size.width as int,
            x,
            2 * y,
        ),
        shown_below(cells(bytes, size)[size.width * y + x]) == pixel(
            bytes,
            size.width as int,
            x,
            2 * y + 1,
        ),
{
    let w = size.width as int;
    let h = size.height as int;
    let p = w * y + x;
    assert(0 <= w * y && w * y + w <= w * h) by (nonlinear_arith)
        requires
            0 <= y,
            y + 1 <= h,
            0 < w,
    ;
    assert(w * y == y * w) by (nonlinear_arith);
    vstd::arithmetic::div_mod::lemma_fundamental_div_mod_converse(p, w, y, x);
    picking_a_side_shows_the_same(pixel(bytes, w, x, 2 * y), pixel(bytes, w, x, 2 * y + 1));
}

/// The first sixteen numbered colors are the named ones.
pub proof fn first_numbers_are_named(i: u8)
    requires
        i < 16,
    ensures
        color_rgb(Color::Indexed(i)) == color_rgb(named(i)),
{
}

} // verus!
