use vstd::prelude::*;

verus! {

/// Height in pixels of the navigation bar across the top of the window.
pub const CHROME_HEIGHT: i32 = 60;

/// A rectangle in client coordinates.
#[derive(Debug, Clone, Copy, PartialEq, Eq, Structural)]
pub struct Rect {
    pub left: i32,
    pub top: i32,
    pub right: i32,
    pub bottom: i32,
}

/// Where the two web views stand: the navigation bar and the page below it.
#[derive(Debug, Clone, Copy, PartialEq, Eq, Structural)]
pub struct ViewBounds {
    pub chrome: Rect,
    pub content: Rect,
}

/// `a - b` clamped to the range of `i32`.
pub open spec fn saturating_sub_i32(a: int, b: int) -> int {
    if a - b < i32::MIN {
        i32::MIN as int
    } else if a - b > i32::MAX {
        i32::MAX as int
    } else {
        a - b
    }
}

/// The height of the page view in a client area `height` tall.
pub open spec fn content_height(height: i32) -> int {
    saturating_sub_i32(height as int, CHROME_HEIGHT as int)
}

/// The layout of a client area `width` wide and `height` tall.
pub open spec fn bounds_of(width: i32, height: i32) -> ViewBounds {
    ViewBounds {
        chrome: Rect { left: 0, top: 0, right: width, bottom: CHROME_HEIGHT },
        content: Rect {
            left: 0,
            top: CHROME_HEIGHT,
            right: width,
            bottom: (CHROME_HEIGHT + content_height(height)) as i32,
        },
    }
}

/// Lays out a client area `width` wide and `height` tall: the navigation bar
/// takes the top `CHROME_HEIGHT` pixels, the page the rest below it.
pub fn view_bounds(width: i32, height: i32) -> (b: ViewBounds)
    ensures
        b == bounds_of(width, height),
        b.chrome.left == 0 && b.content.left == 0,
        b.chrome.right == width && b.content.right == width,
        b.chrome.top == 0,
        b.chrome.bottom == CHROME_HEIGHT,
        b.content.top == b.chrome.bottom,
        b.content.bottom - b.content.top == content_height(height),
        height >= i32::MIN + CHROME_HEIGHT ==> b.content.bottom == height,
{
    let content_h: i32 = match height.checked_sub(CHROME_HEIGHT) {
        Some(d) => d,
        None => i32::MIN,
    };
    ViewBounds {
        chrome: Rect { left: 0, top: 0, right: width, bottom: CHROME_HEIGHT },
        content: Rect { left: 0, top: CHROME_HEIGHT, right: width, bottom: CHROME_HEIGHT + content_h },
    }
}

/// Lays out the views for the client rectangle `client`, whose width and
/// height must fit in an `i32`.
pub fn view_bounds_for_client(client: Rect) -> (b: ViewBounds)
    requires
        i32::MIN <= client.right - client.left <= i32::MAX,
        i32::MIN <= client.bottom - client.top <= i32::MAX,
    ensures
        b == bounds_of(
            (client.right - client.left) as i32,
            (client.bottom - client.top) as i32,
        ),
{
    view_bounds(client.right - client.left, client.bottom - client.top)
}

/// The low 16 bits of a message parameter, read as the word it carries.
pub open spec fn low_word(param: isize) -> int {
    (param as usize) as int % 0x10000
}

/// Bits 16 to 31 of a message parameter, read as the word they carry.
pub open spec fn high_word(param: isize) -> int {
    ((param as usize) as int / 0x10000) % 0x10000
}

/// The client width and height that a resize message carries in its
/// parameter: the width in the low word, the height in the next.
pub fn size_from_param(param: isize) -> (size: (i32, i32))
    ensures
        size.0 == low_word(param),
        size.1 == high_word(param),
        0 <= size.0 < 0x10000,
        0 <= size.1 < 0x10000,
{
    let bits: usize = #[verifier::truncate] (param as usize);
    let w: usize = bits & 0xFFFF;
    let h: usize = (bits >> 16) & 0xFFFF;
    assert(w == bits % 0x10000) by (bit_vector)
        requires
            w == bits & 0xFFFF,
    ;
    assert(h == (bits / 0x10000) % 0x10000) by (bit_vector)
        requires
            h == (bits >> 16) & 0xFFFF,
    ;
    (w as i32, h as i32)
}

} // verus!
