//! Where the OCR failure toast appears.
use vstd::prelude::*;

verus! {

/// Gap between the toast and the screen's edges, in pixels.
pub const TOAST_MARGIN: i32 = 16;

/// The toast's width when the window reports none.
pub const TOAST_DEFAULT_WIDTH: u32 = 320;
/// The toast's height when the window reports none.
pub const TOAST_DEFAULT_HEIGHT: u32 = 56;

/// The toast's top-left corner: at the bottom right of the monitor, `TOAST_MARGIN` from both edges.
pub fn toast_position(monitor_x: i32, monitor_y: i32, monitor_width: u32, monitor_height: u32, window_width: u32, window_height: u32) -> (r: (i32, i32))
    requires
        monitor_width <= i32::MAX,
        monitor_height <= i32::MAX,
        window_width <= i32::MAX,
        window_height <= i32::MAX,
        i32::MIN <= monitor_x + monitor_width <= i32::MAX,
        i32::MIN <= monitor_x + monitor_width - window_width - TOAST_MARGIN <= i32::MAX,
        i32::MIN <= monitor_x + monitor_width - window_width <= i32::MAX,
        i32::MIN <= monitor_y + monitor_height <= i32::MAX,
        i32::MIN <= monitor_y + monitor_height - window_height <= i32::MAX,
        i32::MIN <= monitor_y + monitor_height - window_height - TOAST_MARGIN <= i32::MAX,
    ensures
        r.0 == monitor_x + monitor_width - window_width - TOAST_MARGIN,
        r.1 == monitor_y + monitor_height - window_height - TOAST_MARGIN,
{
    let x = monitor_x + monitor_width as i32 - window_width as i32 - TOAST_MARGIN;
    let y = monitor_y + monitor_height as i32 - window_height as i32 - TOAST_MARGIN;
    (x, y)
}

} // verus!
