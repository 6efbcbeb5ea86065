//! Where the menu stands on an output.
use vstd::prelude::*;

verus! {

/// The width of the menu on an output that has room for it.
pub const MENU_WIDTH: u32 = 800;

/// The distance of the menu from the top of its output.
pub const MENU_TOP: i64 = 32;

/// The size that an output is taken to have until it says.
pub const DEFAULT_WIDTH: u32 = 1920;

pub const DEFAULT_HEIGHT: u32 = 1080;

/// A rectangle on the screen, in whole pixels.
#[derive(Clone, Copy, Debug, PartialEq, Eq, Structural)]
pub struct Rect {
    pub x: i32,
    pub y: i32,
    pub width: i32,
    pub height: i32,
}

/// Where a menu stands on its output, in pixels. Its left edge can fall on half a pixel and is
/// counted in halves.
#[derive(Clone, Copy, Debug, PartialEq, Eq, Structural)]
pub struct Placement {
    pub left_halves: i64,
    pub top: i64,
    pub width: i64,
    pub height: i64,
}

/// What an output tells of itself.
#[derive(Debug, PartialEq, Eq)]
pub struct OutputInfo {
    pub name: Option<String>,
    pub logical_size: Option<(i32, i32)>,
}

/// The size of an output, or the size that it is taken to have.
pub open spec fn output_size(logical_size: Option<(i32, i32)>) -> (u32, u32) {
    match logical_size {
        Some((width, height)) => (width as u32, height as u32),
        None => (DEFAULT_WIDTH, DEFAULT_HEIGHT),
    }
}

/// The size of an output, or the size that it is taken to have.
pub fn size_of_output(logical_size: Option<(i32, i32)>) -> (size: (u32, u32))
    ensures
        size == output_size(logical_size),
{
    match logical_size {
        Some((width, height)) => (#[verifier::truncate] (width as u32), #[verifier::truncate] (
        height as u32)),
        None => (DEFAULT_WIDTH, DEFAULT_HEIGHT),
    }
}

/// Where the menu stands on an output of this size: in the middle if it has room, otherwise over
/// the whole width.
pub open spec fn menu_placement(size: (u32, u32)) -> Placement {
    if size.0 > MENU_WIDTH {
        Placement {
            left_halves: (size.0 - MENU_WIDTH) as i64,
            top: MENU_TOP,
            width: MENU_WIDTH as i64,
            height: (size.1 - MENU_TOP) as i64,
        }
    } else {
        Placement {
            left_halves: 0,
            top: MENU_TOP,
            width: size.0 as i64,
            height: (size.1 - MENU_TOP) as i64,
        }
    }
}

/// Where the menu stands on an output of this size.
pub fn place_menu(size: (u32, u32)) -> (placement: Placement)
    ensures
        placement == menu_placement(size),
{
    if size.0 > MENU_WIDTH {
        Placement {
            left_halves: size.0 as i64 - MENU_WIDTH as i64,
            top: MENU_TOP,
            width: MENU_WIDTH as i64,
            height: size.1 as i64 - MENU_TOP,
        }
    } else {
        Placement {
            left_halves: 0,
            top: MENU_TOP,
            width: size.0 as i64,
            height: size.1 as i64 - MENU_TOP,
        }
    }
}

/// Where the menu of the lock screen stands once its output has changed: in the middle if there is
/// room, otherwise in the corner with the default size.
pub open spec fn changed_placement(size: (u32, u32)) -> Placement {
    if size.0 > MENU_WIDTH {
        menu_placement(size)
    } else {
        Placement {
            left_halves: 0,
            top: 0,
            width: DEFAULT_WIDTH as i64,
            height: DEFAULT_HEIGHT as i64,
        }
    }
}

/// Where the menu of the lock screen stands once its output has changed.
pub fn place_changed_menu(size: (u32, u32)) -> (placement: Placement)
    ensures
        placement == changed_placement(size),
{
    if size.0 > MENU_WIDTH {
        place_menu(size)
    } else {
        Placement {
            left_halves: 0,
            top: 0,
            width: DEFAULT_WIDTH as i64,
            height: DEFAULT_HEIGHT as i64,
        }
    }
}

/// Where the greeter moves its menu when a window has been resized, from the window's width in
/// whole pixels.
pub open spec fn menu_corner(width: u32) -> (i32, i32) {
    if width > MENU_WIDTH {
        (((width - MENU_WIDTH) / 2) as i32, MENU_TOP as i32)
    } else {
        (0, MENU_TOP as i32)
    }
}

/// Where the greeter moves its menu when a window has been resized.
pub fn corner_of_menu(width: u32) -> (corner: (i32, i32))
    ensures
        corner == menu_corner(width),
{
    if width > MENU_WIDTH {
        (((width - MENU_WIDTH) / 2) as i32, 32)
    } else {
        (0, 32)
    }
}

/// The nearest whole pixel to a number of half pixels, away from zero if there are two.
pub open spec fn rounded(halves: int) -> int {
    if halves >= 0 {
        (halves + 1) / 2
    } else {
        -((1 - halves) / 2)
    }
}

fn round_halves(halves: i128) -> (pixels: i128)
    requires
        -0x1_0000_0000_0000_0000 <= halves <= 0x1_0000_0000_0000_0000,
    ensures
        pixels == rounded(halves as int),
{
    if halves >= 0 {
        (halves + 1) / 2
    } else {
        -((1 - halves) / 2)
    }
}

/// A number of pixels, as far as the screen reaches.
pub open spec fn clamped_pixel(pixels: int) -> i32 {
    if pixels < i32::MIN {
        i32::MIN
    } else if pixels > i32::MAX {
        i32::MAX
    } else {
        pixels as i32
    }
}

fn clamp_pixel(pixels: i128) -> (clamped: i32)
    ensures
        clamped == clamped_pixel(pixels as int),
{
    if pixels < i32::MIN as i128 {
        i32::MIN
    } else if pixels > i32::MAX as i128 {
        i32::MAX
    } else {
        pixels as i32
    }
}

/// A rectangle of a menu in the coordinates of the output that the menu stands on.
pub open spec fn on_output(rect: Rect, menu: Placement) -> Rect {
    Rect {
        x: clamped_pixel(rounded(2 * rect.x + menu.left_halves)),
        y: clamped_pixel(rect.y + menu.top),
        ..rect
    }
}

/// A rectangle of a menu in the coordinates of the output that the menu stands on.
pub fn move_to_output(rect: &Rect, menu: &Placement) -> (moved: Rect)
    ensures
        moved == on_output(*rect, *menu),
{
    Rect {
        x: clamp_pixel(round_halves(2 * rect.x as i128 + menu.left_halves as i128)),
        y: clamp_pixel(rect.y as i128 + menu.top as i128),
        width: rect.width,
        height: rect.height,
    }
}

/// The width of the menu in a window, from the window's width.
pub open spec fn menu_width(window_width: Option<u32>) -> u32 {
    match window_width {
        Some(width) if width <= MENU_WIDTH => width,
        _ => MENU_WIDTH,
    }
}

/// The width of the menu in a window, from the window's width if that is known.
pub fn width_of_menu(window_width: Option<u32>) -> (width: u32)
    ensures
        width == menu_width(window_width),
{
    match window_width {
        Some(width) => {
            if width > MENU_WIDTH {
                MENU_WIDTH
            } else {
                width
            }
        },
        None => MENU_WIDTH,
    }
}

/// The menu never reaches over the sides of its output, and stands in the middle of it.
pub proof fn law_menu_is_centred(size: (u32, u32))
    ensures
        menu_placement(size).left_halves >= 0,
        menu_placement(size).left_halves + menu_placement(size).width == size.0,
        menu_placement(size).width <= size.0,
{
}

}
