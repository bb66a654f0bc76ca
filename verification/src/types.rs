//! Sizes and colors.
use vstd::prelude::*;

verus! {

/// The size of a terminal cell in pixels.
#[derive(Clone, Copy, Debug, PartialEq, Eq, Structural)]
pub struct FontSize {
    pub width: u16,
    pub height: u16,
}

impl FontSize {
    pub fn new(width: u16, height: u16) -> (r: FontSize)
        ensures
            r == (FontSize { width, height }),
    {
        FontSize { width, height }
    }
}

impl From<(u16, u16)> for FontSize {
    fn from(size: (u16, u16)) -> (r: FontSize) {
        FontSize { width: size.0, height: size.1 }
    }
}

impl vstd::std_specs::convert::FromSpecImpl<(u16, u16)> for FontSize {
    open spec fn obeys_from_spec() -> bool {
        true
    }

    open spec fn from_spec(size: (u16, u16)) -> FontSize {
        FontSize { width: size.0, height: size.1 }
    }
}

/// A size in terminal cells.
#[derive(Clone, Copy, Debug, PartialEq, Eq, Structural)]
pub struct Size {
    pub width: u16,
    pub height: u16,
}

impl Size {
    pub fn new(width: u16, height: u16) -> (r: Size)
        ensures
            r == (Size { width, height }),
    {
        Size { width, height }
    }
}

/// A color with an alpha channel.
#[derive(Clone, Copy, Debug, PartialEq, Eq, Structural)]
pub struct Rgba {
    pub r: u8,
    pub g: u8,
    pub b: u8,
    pub a: u8,
}

impl From<[u8; 4]> for Rgba {
    fn from(channels: [u8; 4]) -> (r: Rgba) {
        Rgba { r: channels[0], g: channels[1], b: channels[2], a: channels[3] }
    }
}

impl vstd::std_specs::convert::FromSpecImpl<[u8; 4]> for Rgba {
    open spec fn obeys_from_spec() -> bool {
        true
    }

    open spec fn from_spec(channels: [u8; 4]) -> Rgba {
        Rgba { r: channels[0], g: channels[1], b: channels[2], a: channels[3] }
    }
}

/// A conversion keeps each value in its place: red, green, blue and alpha, and width before height.
pub proof fn conversions_keep_their_order(channels: [u8; 4], size: (u16, u16))
    ensures
        ({
            let color = <Rgba as vstd::std_specs::convert::FromSpec<[u8; 4]>>::from_spec(channels);
            &&& color.r == channels[0]
            &&& color.g == channels[1]
            &&& color.b == channels[2]
            &&& color.a == channels[3]
        }),
        ({
            let cell = <FontSize as vstd::std_specs::convert::FromSpec<(u16, u16)>>::from_spec(size);
            cell.width == size.0 && cell.height == size.1
        }),
{
}

/// Every type converts into itself, so a color that is an [`Rgba`] already can be given where one
/// that converts into it is asked for. Of that conversion, `<T as From<T>>::from`, this trusts what
/// std documents: it returns its argument unchanged.
pub assume_specification<Same>[ <Same as std::convert::From<Same>>::from ](value: Same) -> (r: Same)
    ensures
        r == value,
;

/// The size of a terminal window in pixels and in cells.
#[derive(Clone, Copy, Debug, PartialEq, Eq, Structural)]
pub struct Winsize {
    pub xpixel: u16,
    pub ypixel: u16,
    pub cols: u16,
    pub rows: u16,
}

/// The size of a cell in a window, if the window's sizes are known.
pub open spec fn cell_of_window(window: Winsize) -> Option<FontSize> {
    if window.xpixel == 0 || window.ypixel == 0 || window.cols == 0 || window.rows == 0 {
        None
    } else {
        Some(
            FontSize {
                width: (window.xpixel / window.cols) as u16,
                height: (window.ypixel / window.rows) as u16,
            },
        )
    }
}

/// The cells of a window are as large as they can be without outgrowing it, and of a window of
/// which anything is not known they are not known.
pub proof fn cells_fill_the_window(window: Winsize)
    ensures
        cell_of_window(window) is None <==> window.xpixel == 0 || window.ypixel == 0 || window.cols
            == 0 || window.rows == 0,
        cell_of_window(window) matches Some(size) ==> {
            &&& size.width * window.cols <= window.xpixel < (size.width + 1) * window.cols
            &&& size.height * window.rows <= window.ypixel < (size.height + 1) * window.rows
        },
{
    if cell_of_window(window) is Some {
        lemma_division(window.xpixel as int, window.cols as int);
        lemma_division(window.ypixel as int, window.rows as int);
    }
}

proof fn lemma_division(n: int, d: int)
    requires
        0 <= n <= 0xffff,
        0 < d,
    ensures
        0 <= n / d <= 0xffff,
        n / d * d <= n < (n / d + 1) * d,
{
    vstd::arithmetic::div_mod::lemma_fundamental_div_mod(n, d);
    vstd::arithmetic::div_mod::lemma_mod_bound(n, d);
    let q = n / d;
    assert(q * d == d * q) by (nonlinear_arith);
    assert((q + 1) * d == q * d + d) by (nonlinear_arith);
    assert(0 <= q <= n) by (nonlinear_arith)
        requires
            d * q <= n < d * q + d,
            0 <= n,
            0 < d,
    ;
}

/// The size of a cell where the terminal has not told it: from the size of its window, if that
/// could be had and holds no zero.
pub fn font_size_fallback(winsize: Option<Winsize>) -> (r: Option<FontSize>)
    ensures
        r == (match winsize {
            Some(window) => cell_of_window(window),
            None => None,
        }),
{
    let window = match winsize {
        Some(window) => window,
        None => {
            return None;
        },
    };
    if window.xpixel == 0 || window.ypixel == 0 || window.cols == 0 || window.rows == 0 {
        return None;
    }
    Some(FontSize::new(window.xpixel / window.cols, window.ypixel / window.rows))
}

} // verus!
