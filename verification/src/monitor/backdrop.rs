//! The picture behind the selection: the screenshot in the size of the window,
//! dimmed where nothing is selected.

use crate::frame::{resizable, triangle_resized, Frame, FrameView};
use crate::monitor::overlay::law_selection_in_picture_fits;
use crate::monitor::overlay::{draw_overlay, fits, overlaid, overlay_fits};
use crate::monitor::pixels::{dim_buffer, dimmed_pixel, rgba_to_0rgb, screen_pixels};
use crate::monitor::selector::{dragging, law_selection_spans_drag, spanned};
use crate::monitor::selector::{Selector, SelectorInput, SelectorView};
use vstd::prelude::*;

verus! {

/// What a `Backdrop` holds: the size of the window, the screenshot in that
/// size, and the same dimmed.
pub struct BackdropView {
    pub width: nat,
    pub height: nat,
    pub base: Seq<u32>,
    pub dimmed: Seq<u32>,
}

impl BackdropView {
    /// Both pictures have the size of the window.
    pub open spec fn wf(self) -> bool {
        &&& self.base.len() == self.width * self.height
        &&& self.dimmed.len() == self.width * self.height
    }
}

/// The backdrop of a picture that has the size of the window.
pub open spec fn backdrop_of(picture: FrameView) -> BackdropView {
    let base = screen_pixels(picture.bytes);
    BackdropView {
        width: picture.width,
        height: picture.height,
        base,
        dimmed: base.map_values(|p: u32| dimmed_pixel(p)),
    }
}

/// The side of the window: what the monitor reports, or the side of the
/// screenshot where it reports nothing.
pub open spec fn window_side(reported: Option<u32>, side: nat) -> nat {
    match reported {
        Some(n) => n as nat,
        None => side,
    }
}

/// The screenshot in the size of the window.
pub open spec fn in_window_size(picture: FrameView, width: u32, height: u32) -> FrameView {
    if width == picture.width && height == picture.height {
        picture
    } else {
        FrameView {
            width: width as nat,
            height: height as nat,
            bytes: triangle_resized(
                picture.bytes,
                picture.width as u32,
                picture.height as u32,
                width,
                height,
            ),
        }
    }
}

/// What a round of a choice shows: the backdrop with what is selected on it.
pub open spec fn shown(b: BackdropView, v: SelectorView) -> Seq<u32> {
    overlaid(b.base, b.dimmed, b.width as int, v.selection)
}

/// The pictures behind a selection.
pub struct Backdrop {
    width: u32,
    height: u32,
    base: Vec<u32>,
    dimmed: Vec<u32>,
}

impl View for Backdrop {
    type V = BackdropView;

    closed spec fn view(&self) -> BackdropView {
        BackdropView {
            width: self.width as nat,
            height: self.height as nat,
            base: self.base@,
            dimmed: self.dimmed@,
        }
    }
}

impl Backdrop {
    #[verifier::type_invariant]
    spec fn inv(self) -> bool {
        self@.wf()
    }

    /// The backdrop of a picture that has the size of the window.
    pub fn from_picture(picture: &Frame) -> (b: Backdrop)
        ensures
            b@ == backdrop_of(picture@),
            b@.wf(),
    {
        let width: u32 = picture.width();
        let height: u32 = picture.height();
        let base = rgba_to_0rgb(picture);
        let dimmed = dim_buffer(base.as_slice());
        Backdrop { width, height, base, dimmed }
    }

    /// The backdrop of a screenshot, in a window of the size that the monitor
    /// reports.
    pub fn prepare(screenshot: Frame, reported_w: Option<u32>, reported_h: Option<u32>) -> (b:
        Backdrop)
        requires
            ({
                let win_w = window_side(reported_w, screenshot@.width);
                let win_h = window_side(reported_h, screenshot@.height);
                win_w != screenshot@.width || win_h != screenshot@.height ==> resizable(
                    screenshot@.width as int,
                    screenshot@.height as int,
                    win_w as int,
                    win_h as int,
                )
            }),
        ensures
            b@ == backdrop_of(
                in_window_size(
                    screenshot@,
                    window_side(reported_w, screenshot@.width) as u32,
                    window_side(reported_h, screenshot@.height) as u32,
                ),
            ),
            b@.wf(),
    {
        let phys_w: u32 = screenshot.width();
        let phys_h: u32 = screenshot.height();
        let win_w: u32 = reported_w.unwrap_or(phys_w);
        let win_h: u32 = reported_h.unwrap_or(phys_h);
        let picture = if win_w != phys_w || win_h != phys_h {
            screenshot.resized(win_w, win_h)
        } else {
            screenshot
        };
        Backdrop::from_picture(&picture)
    }

    /// The width of the window.
    pub fn width(&self) -> (w: u32)
        ensures
            w == self@.width,
    {
        self.width
    }

    /// The height of the window.
    pub fn height(&self) -> (h: u32)
        ensures
            h == self@.height,
    {
        self.height
    }

    /// An all black picture of the window's size, to draw on.
    pub fn blank(&self) -> (display: Vec<u32>)
        ensures
            display@ == Seq::new(self@.width * self@.height, |i: int| 0u32),
            self@.wf(),
    {
        proof {
            use_type_invariant(self);
        }
        let display: Vec<u32> = vec![0u32; self.dimmed.len()];
        assert(display@ =~= Seq::new(self@.width * self@.height, |i: int| 0u32));
        display
    }

    /// Tells whether what is selected can be drawn.
    pub fn can_draw(&self, selector: &Selector) -> (r: bool)
        ensures
            r == fits(
                self@.dimmed.len() as int,
                self@.base.len() as int,
                self@.width as int,
                selector@.selection,
            ),
    {
        overlay_fits(
            self.dimmed.len(),
            self.base.len(),
            self.width as usize,
            selector.selection(),
        )
    }

    /// Draws what a round of the choice shows.
    pub fn draw(&self, selector: &Selector, display: &mut [u32])
        requires
            old(display)@.len() == self@.dimmed.len(),
            fits(
                self@.dimmed.len() as int,
                self@.base.len() as int,
                self@.width as int,
                selector@.selection,
            ),
        ensures
            final(display)@ == shown(self@, selector@),
    {
        draw_overlay(
            display,
            self.base.as_slice(),
            self.dimmed.as_slice(),
            self.width as usize,
            selector.selection(),
        );
    }
}

/// What is shown has a pixel for each of the window's, and is the dimmed picture
/// where no drag is going on.
pub proof fn law_shown_without_a_drag(picture: FrameView, v: SelectorView)
    requires
        picture.wf(),
        v.wf(),
        v.drag_start is None,
    ensures
        shown(backdrop_of(picture), v) == screen_pixels(picture.bytes).map_values(
            |p: u32| dimmed_pixel(p),
        ),
        shown(backdrop_of(picture), v).len() == picture.width * picture.height,
{
}

/// What a round shows while the button is down: the dimmed picture with the
/// selection that the place where the button went down and the place where the
/// mouse is span, of the size of the window.
pub proof fn law_shown_while_dragging(
    picture: FrameView,
    v: SelectorView,
    inputs: Seq<SelectorInput>,
)
    requires
        picture.wf(),
        v.drag_start is None,
        inputs.len() > 0,
        dragging(inputs),
    ensures
        shown(backdrop_of(picture), v.after(inputs)) == overlaid(
            screen_pixels(picture.bytes),
            screen_pixels(picture.bytes).map_values(|p: u32| dimmed_pixel(p)),
            picture.width as int,
            Some(
                spanned(v.in_window(inputs[0].mouse->0), v.in_window(inputs.last().mouse->0)),
            ),
        ),
        shown(backdrop_of(picture), v.after(inputs)).len() == picture.width * picture.height,
{
    law_selection_spans_drag(v, inputs);
}

/// What any round that goes on shows, whatever came before: while the button is
/// down and the mouse in sight, the selection spanned by where the drag began
/// and where the mouse is; with the mouse out of sight, what was selected; and
/// nothing selected once the button is up.
pub proof fn law_shown_after_a_round(picture: FrameView, v: SelectorView, input: SelectorInput)
    requires
        picture.wf(),
        v.wf(),
        v.next(input).1 is Drawing,
    ensures
        shown(backdrop_of(picture), v.next(input).0) == overlaid(
            screen_pixels(picture.bytes),
            screen_pixels(picture.bytes).map_values(|p: u32| dimmed_pixel(p)),
            picture.width as int,
            match input.mouse {
                None => v.selection,
                Some(m) => if input.left_down {
                    Some(
                        spanned(
                            match v.drag_start {
                                Some(start) => start,
                                None => v.in_window(m),
                            },
                            v.in_window(m),
                        ),
                    )
                } else {
                    None
                },
            },
        ),
        shown(backdrop_of(picture), v.next(input).0).len() == picture.width * picture.height,
{
}

/// What the mouse selects in the window can be drawn on its backdrop, unless it
/// lies in the last row alone, or in the last column alone and reaches the last
/// row.
pub proof fn law_selection_can_be_drawn(b: BackdropView, v: SelectorView)
    requires
        b.wf(),
        v.wf(),
        b.width == v.win_w,
        b.height == v.win_h,
        0 < b.width,
        0 < b.height,
        b.width * b.height <= usize::MAX,
        v.selection is Some,
    ensures
        fits(b.dimmed.len() as int, b.base.len() as int, b.width as int, v.selection) <==> !({
            let sel = v.selection->0;
            sel.1 == b.height - 1 || (sel.0 == b.width - 1 && sel.3 == b.height - 1)
        }),
{
    law_selection_in_picture_fits(v.win_w, v.win_h, v.selection->0);
}

/// The window has the sides that the monitor reports, each on its own, and the
/// screenshot's where it reports none. A screenshot of the window's size is used
/// as it is, any other is resized to the window.
pub proof fn law_picture_in_the_window(picture: FrameView, width: u32, height: u32, side: nat)
    ensures
        window_side(Some(width), side) == width,
        window_side(None, side) == side,
        in_window_size(picture, width, height).width == width,
        in_window_size(picture, width, height).height == height,
        in_window_size(picture, width, height).bytes == (if width == picture.width && height
            == picture.height {
            picture.bytes
        } else {
            triangle_resized(
                picture.bytes,
                picture.width as u32,
                picture.height as u32,
                width,
                height,
            )
        }),
{
}

/// Pixel `i` of the backdrop is made of the red, green and blue of the picture,
/// and the same pixel dimmed of three fifths of each.
pub proof fn law_backdrop_pixel_written_out(picture: FrameView, i: int)
    requires
        picture.wf(),
        0 <= i < picture.width * picture.height,
    ensures
        ({
            let (r, g, b) = (
                picture.bytes[4 * i] as int,
                picture.bytes[4 * i + 1] as int,
                picture.bytes[4 * i + 2] as int,
            );
            let drop = backdrop_of(picture);
            &&& drop.width == picture.width
            &&& drop.height == picture.height
            &&& drop.base.len() == picture.width * picture.height
            &&& drop.dimmed.len() == picture.width * picture.height
            &&& drop.base[i] == r * 65536 + g * 256 + b
            &&& drop.dimmed[i] == (3 * r / 5) * 65536 + (3 * g / 5) * 256 + 3 * b / 5
        }),
{
    crate::monitor::pixels::law_screen_pixel_written_out(picture.bytes, i);
    crate::monitor::pixels::law_dimmed_pixel_written_out(
        backdrop_of(picture).base[i],
        0,
        picture.bytes[4 * i] as nat,
        picture.bytes[4 * i + 1] as nat,
        picture.bytes[4 * i + 2] as nat,
    );
}

} // verus!
