//! What the user sees: the tray icon and the alerts.

use crate::decimal::{decimal, push_decimal};
use vstd::prelude::*;
use vstd::string::*;

verus! {

/// The side of the tray icon in pixels.
pub const ICON_SIDE: u32 = 32;

/// Whether the watcher is there.
#[derive(Clone, Copy, Debug, PartialEq, Eq)]
pub enum Status {
    /// It has not been heard of yet.
    Waiting,
    /// It is there.
    Connected,
    /// It is gone.
    Disconnected,
}

/// The text at the tray icon.
pub open spec fn tooltip_text(status: Status) -> Seq<char> {
    match status {
        Status::Waiting => "消息监控 - 等待连接"@,
        Status::Connected => "消息监控 - 已连接"@,
        Status::Disconnected => "消息监控 - 已断开"@,
    }
}

/// The colour of the tray icon.
pub open spec fn colour(status: Status) -> (u8, u8, u8) {
    match status {
        Status::Waiting => (0, 180, 80),
        Status::Connected => (0, 220, 80),
        Status::Disconnected => (128, 128, 128),
    }
}

/// The bytes of an opaque square of one colour, four to a pixel.
pub open spec fn icon_bytes(r: u8, g: u8, b: u8) -> Seq<u8> {
    Seq::new(
        4 * (ICON_SIDE as nat * ICON_SIDE as nat),
        |i: int|
            if i % 4 == 0 {
                r
            } else if i % 4 == 1 {
                g
            } else if i % 4 == 2 {
                b
            } else {
                255
            },
    )
}

/// The text of the alert number `count`.
pub open spec fn alert_text(count: nat) -> Seq<char> {
    "检测到屏幕通知区域变化 (第 "@ + decimal(count) + " 次)"@
}

/// The bytes of an icon of one colour: an opaque square, four bytes to a pixel
/// in the order red, green, blue, alpha.
pub fn create_icon(r: u8, g: u8, b: u8) -> (rgba: Vec<u8>)
    ensures
        rgba@ == icon_bytes(r, g, b),
{
    let mut rgba: Vec<u8> = Vec::new();
    let count: u32 = ICON_SIDE * ICON_SIDE;
    let mut i: u32 = 0;
    while i < count
        invariant
            i <= count,
            count == ICON_SIDE * ICON_SIDE,
            rgba@ == icon_bytes(r, g, b).take(4 * i),
        decreases count - i,
    {
        rgba.push(r);
        rgba.push(g);
        rgba.push(b);
        rgba.push(255);
        i = i + 1;
        assert(rgba@ =~= icon_bytes(r, g, b).take(4 * i));
    }
    assert(rgba@ =~= icon_bytes(r, g, b));
    rgba
}

impl Status {
    /// The text at the tray icon.
    pub fn tooltip(&self) -> (s: &'static str)
        ensures
            s@ == tooltip_text(*self),
    {
        match self {
            Status::Waiting => "消息监控 - 等待连接",
            Status::Connected => "消息监控 - 已连接",
            Status::Disconnected => "消息监控 - 已断开",
        }
    }

    /// The bytes of the tray icon.
    pub fn icon(&self) -> (rgba: Vec<u8>)
        ensures
            rgba@ == icon_bytes(colour(*self).0, colour(*self).1, colour(*self).2),
    {
        match self {
            Status::Waiting => create_icon(0, 180, 80),
            Status::Connected => create_icon(0, 220, 80),
            Status::Disconnected => create_icon(128, 128, 128),
        }
    }
}

/// The text of the alert number `count`.
pub fn alert_body(count: u64) -> (s: String)
    ensures
        s@ == alert_text(count as nat),
{
    let mut s = "检测到屏幕通知区域变化 (第 ".to_owned();
    push_decimal(&mut s, count);
    s.append(" 次)");
    s
}

/// An icon has 32 by 32 pixels, and every one of them is the given colour, opaque.
pub proof fn law_icon_pixel(r: u8, g: u8, b: u8, k: int)
    requires
        0 <= k < 1024,
    ensures
        icon_bytes(r, g, b).len() == 4096,
        icon_bytes(r, g, b)[4 * k] == r,
        icon_bytes(r, g, b)[4 * k + 1] == g,
        icon_bytes(r, g, b)[4 * k + 2] == b,
        icon_bytes(r, g, b)[4 * k + 3] == 255,
{
}

/// The colour of each status: two shades of green, and grey.
pub proof fn law_colours_written_out()
    ensures
        colour(Status::Waiting) == (0u8, 180u8, 80u8),
        colour(Status::Connected) == (0u8, 220u8, 80u8),
        colour(Status::Disconnected) == (128u8, 128u8, 128u8),
{
}

/// An alert names its number in decimal, between texts that are always the same.
pub proof fn law_alert_written_out(count: nat)
    ensures
        alert_text(count) == "检测到屏幕通知区域变化 (第 "@ + decimal(count) + " 次)"@,
{
}

} // verus!
