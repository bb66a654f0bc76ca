use image::{DynamicImage, ImageBuffer, Luma, Rgb, Rgba};
use ratatui_image::protocol::halfblocks::primitive::{
    encode, encode_rgb8, HALF_LOWER, HALF_UPPER, SPACE,
};
use ratatui_image::protocol::halfblocks::{Color, HalfBlock};
use ratatui_image::Size;

/// An area of more cells than 16 bits can count must still be filled.
#[test]
fn encodes_a_grid_of_more_than_u16_max_cells() {
    let img: DynamicImage = ImageBuffer::from_pixel(64, 64, Rgba::<u8>([255, 0, 0, 255])).into();
    let size = Size::new(458, 144);
    assert!(
        u32::from(size.width) * u32::from(size.height) > u32::from(u16::MAX),
        "the case is only meaningful past the ceiling",
    );

    let data = encode(&img, size);

    assert_eq!(
        data.len(),
        458 * 144,
        "one entry per cell, not modulo 65536"
    );
    assert!(data.iter().all(|hb| *hb
        == HalfBlock {
            upper: Color::Rgb(255, 0, 0),
            lower: Color::Rgb(255, 0, 0),
            char: SPACE
        }));
}

#[test]
fn the_three_characters() {
    assert_eq!(HALF_UPPER, '▀');
    assert_eq!(HALF_LOWER, '▄');
    assert_eq!(SPACE, ' ');
}

/// An image of two pixels for each cell is taken as it is.
#[test]
fn encodes_the_pixels_of_a_fitting_image() {
    let black = Color::Rgb(0, 0, 0);
    let white = Color::Rgb(255, 255, 255);
    let red = Color::Rgb(255, 0, 0);
    let img: DynamicImage = ImageBuffer::from_fn(2, 4, |x, y| match (x, y) {
        (0, 0) => Rgb::<u8>([255, 255, 255]),
        (1, 1) => Rgb::<u8>([255, 255, 255]),
        (1, 2) | (1, 3) => Rgb::<u8>([255, 0, 0]),
        _ => Rgb::<u8>([0, 0, 0]),
    })
    .into();
    assert_eq!(
        encode(&img, Size::new(2, 2)),
        vec![
            HalfBlock { upper: white, lower: black, char: HALF_UPPER },
            HalfBlock { upper: white, lower: black, char: HALF_LOWER },
            HalfBlock { upper: black, lower: black, char: SPACE },
            HalfBlock { upper: red, lower: red, char: SPACE },
        ]
    );
}

/// The resized image is the one that the `image` crate makes of it.
#[test]
fn encodes_what_the_image_crate_resizes() {
    let img: DynamicImage =
        ImageBuffer::from_fn(7, 5, |x, y| Rgba::<u8>([(x * 30) as u8, (y * 40) as u8, 77, 255]))
            .into();
    let size = Size::new(3, 4);
    let resized = img
        .resize_exact(3, 8, image::imageops::FilterType::Triangle)
        .to_rgb8();
    assert_eq!(encode(&img, size), encode_rgb8(&resized.into_raw(), size));
    // And other pixel formats become red, green and blue.
    let gray: DynamicImage = ImageBuffer::from_pixel(1, 2, Luma::<u16>([0xffff])).into();
    assert_eq!(encode(&gray, Size::new(1, 1))[0].upper, Color::Rgb(255, 255, 255));
}

#[test]
fn encodes_empty_areas() {
    let img: DynamicImage = ImageBuffer::from_pixel(4, 4, Rgb::<u8>([1, 2, 3])).into();
    assert!(encode(&img, Size::new(0, 5)).is_empty());
    assert!(encode(&img, Size::new(5, 0)).is_empty());
    let nothing: DynamicImage = ImageBuffer::<Rgb<u8>, Vec<u8>>::new(0, 0).into();
    let data = encode(&nothing, Size::new(1, 1));
    assert_eq!(data[0].char, SPACE);
    assert_eq!(data[0].upper, Color::Rgb(0, 0, 0));
}

#[test]
fn encodes_bytes() {
    let data = encode_rgb8(&vec![10, 20, 30, 40, 50, 60], Size::new(1, 1));
    assert_eq!(
        data,
        vec![HalfBlock {
            upper: Color::Rgb(40, 50, 60),
            lower: Color::Rgb(10, 20, 30),
            char: HALF_LOWER
        }]
    );
}

#[test]
fn luminances() {
    assert_eq!(HalfBlock::luminance((0, 0, 0)), 0);
    assert_eq!(HalfBlock::luminance((1, 0, 0)), 2126);
    assert_eq!(HalfBlock::luminance((0, 1, 0)), 7152);
    assert_eq!(HalfBlock::luminance((0, 0, 1)), 722);
    assert_eq!(HalfBlock::luminance((255, 255, 255)), 2550000);
}

#[test]
fn picking_sides() {
    let mut block = HalfBlock { upper: Color::Blue, lower: Color::Yellow, char: HALF_UPPER };
    block.pick_side();
    let picked = HalfBlock { upper: Color::Yellow, lower: Color::Blue, char: HALF_LOWER };
    assert_eq!(block, picked);
    block.pick_side();
    assert_eq!(block, picked);
    // Two names for one color are two colors, of one brightness.
    let mut block = HalfBlock { upper: Color::White, lower: Color::Reset, char: HALF_UPPER };
    block.pick_side();
    assert_eq!(block.char, HALF_UPPER);
    let mut block = HalfBlock { upper: Color::Reset, lower: Color::Reset, char: HALF_UPPER };
    block.pick_side();
    assert_eq!(block.char, SPACE);
}

#[test]
fn numbered_colors() {
    assert_eq!(HalfBlock::indexed_to_rgb(16), (0, 0, 0));
    assert_eq!(HalfBlock::indexed_to_rgb(17), (0, 0, 95));
    assert_eq!(HalfBlock::indexed_to_rgb(22), (0, 95, 0));
    assert_eq!(HalfBlock::indexed_to_rgb(52), (95, 0, 0));
    assert_eq!(HalfBlock::indexed_to_rgb(123), (135, 255, 255));
    assert_eq!(HalfBlock::indexed_to_rgb(231), (255, 255, 255));
    assert_eq!(HalfBlock::indexed_to_rgb(232), (8, 8, 8));
    assert_eq!(HalfBlock::indexed_to_rgb(255), (238, 238, 238));
    let names = [
        Color::Black,
        Color::Red,
        Color::Green,
        Color::Yellow,
        Color::Blue,
        Color::Magenta,
        Color::Cyan,
        Color::Gray,
        Color::DarkGray,
        Color::LightRed,
        Color::LightGreen,
        Color::LightYellow,
        Color::LightBlue,
        Color::LightMagenta,
        Color::LightCyan,
        Color::White,
    ];
    for (i, name) in names.iter().enumerate() {
        assert_eq!(HalfBlock::rgb(Color::Indexed(i as u8)), HalfBlock::rgb(*name));
    }
    assert_eq!(HalfBlock::rgb(Color::LightBlue), (92, 92, 255));
    assert_eq!(HalfBlock::rgb(Color::Gray), (229, 229, 229));
    assert_eq!(HalfBlock::rgb(Color::Reset), (255, 255, 255));
    assert_eq!(HalfBlock::rgb(Color::Rgb(1, 2, 3)), (1, 2, 3));
}

/// Bytes that an image's buffer holds behind its pixels are not shown.
#[test]
fn encodes_no_more_than_the_pixels() {
    let bytes = vec![1, 2, 3, 1, 2, 3, 200, 200, 200];
    let img: DynamicImage = ImageBuffer::<Rgb<u8>, Vec<u8>>::from_raw(1, 2, bytes)
        .expect("more bytes than needed")
        .into();
    let color = Color::Rgb(1, 2, 3);
    assert_eq!(
        encode(&img, Size::new(1, 1)),
        vec![HalfBlock { upper: color, lower: color, char: SPACE }]
    );
}
