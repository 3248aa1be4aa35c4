//! Choosing a region of the screen with the mouse.

use crate::monitor::overlay::Selection;
use vstd::prelude::*;

verus! {

/// A drag is accepted when it is more than this many pixels wide and high.
pub const MIN_DRAG: usize = 10;

/// What the window reports in one round.
#[derive(Clone, Copy, Debug, PartialEq, Eq)]
pub struct SelectorInput {
    /// The window has not been closed.
    pub open: bool,
    /// The escape key is down.
    pub escape: bool,
    /// The mouse position, where there is one.
    pub mouse: Option<(usize, usize)>,
    /// The left mouse button is down.
    pub left_down: bool,
}

/// A rectangle of the window.
#[derive(Clone, Copy, Debug, PartialEq, Eq)]
pub struct Region {
    pub x: usize,
    pub y: usize,
    pub width: usize,
    pub height: usize,
}

/// What one round comes to.
#[derive(Clone, Copy, Debug, PartialEq, Eq)]
pub enum SelectorStep {
    /// The choice was called off.
    Cancelled,
    /// A region was chosen.
    Chosen(Region),
    /// The choice goes on; the selection is to be drawn.
    Drawing,
}

/// The state of a choice: the window's size, where the drag began, and what is
/// selected.
pub struct SelectorView {
    pub win_w: usize,
    pub win_h: usize,
    pub drag_start: Option<(usize, usize)>,
    pub selection: Option<Selection>,
}

/// `m`, or the last position of a side of `win` pixels where `m` is beyond it.
pub open spec fn clamped(m: usize, win: usize) -> usize {
    if win == 0 {
        0
    } else if m < win {
        m
    } else {
        (win - 1) as usize
    }
}

/// The smaller of two positions.
pub open spec fn least(a: usize, b: usize) -> usize {
    if a <= b { a } else { b }
}

/// The larger of two positions.
pub open spec fn greatest(a: usize, b: usize) -> usize {
    if a <= b { b } else { a }
}

/// The selection that two opposite corners span.
pub open spec fn spanned(a: (usize, usize), b: (usize, usize)) -> Selection {
    (least(a.0, b.0), least(a.1, b.1), greatest(a.0, b.0), greatest(a.1, b.1))
}

/// Whether a drag is large enough to be a choice.
pub open spec fn large_enough(sel: Selection) -> bool {
    sel.2 > sel.0 + MIN_DRAG && sel.3 > sel.1 + MIN_DRAG
}

/// The region of a selection.
pub open spec fn region_of(sel: Selection) -> Region {
    Region {
        x: sel.0,
        y: sel.1,
        width: (sel.2 - sel.0) as usize,
        height: (sel.3 - sel.1) as usize,
    }
}

impl SelectorView {
    /// Something is selected exactly while a drag is on; the selection has the
    /// start of the drag at a corner and lies in the window.
    pub open spec fn wf(self) -> bool {
        match (self.drag_start, self.selection) {
            (None, None) => true,
            (Some(start), Some(sel)) => {
                &&& sel.0 <= sel.2
                &&& sel.1 <= sel.3
                &&& sel.2 == clamped(sel.2, self.win_w)
                &&& sel.3 == clamped(sel.3, self.win_h)
                &&& start.0 == sel.0 || start.0 == sel.2
                &&& start.1 == sel.1 || start.1 == sel.3
            },
            _ => false,
        }
    }

    /// The mouse position, moved into the window.
    pub open spec fn in_window(self, m: (usize, usize)) -> (usize, usize) {
        (clamped(m.0, self.win_w), clamped(m.1, self.win_h))
    }

    /// The state after a round, and what the round comes to.
    pub open spec fn next(self, input: SelectorInput) -> (SelectorView, SelectorStep) {
        let idle = SelectorView { drag_start: None, selection: None, ..self };
        if !input.open || input.escape {
            (self, SelectorStep::Cancelled)
        } else {
            match (input.mouse, self.drag_start, self.selection) {
                (None, _, _) => (self, SelectorStep::Drawing),
                (Some(m), start, sel) => if input.left_down {
                    let here = self.in_window(m);
                    let from = match start {
                        Some(s) => s,
                        None => here,
                    };
                    (
                        SelectorView {
                            drag_start: Some(from),
                            selection: Some(spanned(from, here)),
                            ..self
                        },
                        SelectorStep::Drawing,
                    )
                } else {
                    match (start, sel) {
                        (Some(_), Some(s)) if large_enough(s) => (
                            idle,
                            SelectorStep::Chosen(region_of(s)),
                        ),
                        _ => (idle, SelectorStep::Drawing),
                    }
                },
            }
        }
    }

    /// The state after some rounds, whatever they came to.
    pub open spec fn after(self, inputs: Seq<SelectorInput>) -> SelectorView
        decreases inputs.len(),
    {
        if inputs.len() == 0 {
            self
        } else {
            self.after(inputs.drop_last()).next(inputs.last()).0
        }
    }
}

/// A choice in progress.
pub struct Selector {
    win_w: usize,
    win_h: usize,
    drag_start: Option<(usize, usize)>,
    selection: Option<Selection>,
}

impl View for Selector {
    type V = SelectorView;

    closed spec fn view(&self) -> SelectorView {
        SelectorView {
            win_w: self.win_w,
            win_h: self.win_h,
            drag_start: self.drag_start,
            selection: self.selection,
        }
    }
}

/// `m`, moved into a side of `win` pixels.
fn clamp_to(m: usize, win: usize) -> (c: usize)
    ensures
        c == clamped(m, win),
{
    let last: usize = win.saturating_sub(1);
    if m < last {
        m
    } else {
        last
    }
}

/// The selection that two opposite corners span.
fn span(a: (usize, usize), b: (usize, usize)) -> (sel: Selection)
    ensures
        sel == spanned(a, b),
{
    let (x1, x2) = if a.0 <= b.0 {
        (a.0, b.0)
    } else {
        (b.0, a.0)
    };
    let (y1, y2) = if a.1 <= b.1 {
        (a.1, b.1)
    } else {
        (b.1, a.1)
    };
    (x1, y1, x2, y2)
}

impl Selector {
    #[verifier::type_invariant]
    spec fn inv(self) -> bool {
        self@.wf()
    }

    /// A choice in a window of the given size; nothing is selected yet.
    pub fn new(win_w: usize, win_h: usize) -> (s: Selector)
        ensures
            s@ == (SelectorView { win_w, win_h, drag_start: None, selection: None }),
            s@.wf(),
    {
        Selector { win_w, win_h, drag_start: None, selection: None }
    }

    /// What is selected.
    pub fn selection(&self) -> (sel: Option<Selection>)
        ensures
            sel == self@.selection,
            self@.wf(),
    {
        proof {
            use_type_invariant(self);
        }
        self.selection
    }

    /// Takes what the window reports. The left button starts and continues a
    /// drag; letting go of it ends the choice where the drag is large enough, and
    /// drops the selection where it is not. Escape and closing the window call
    /// the choice off.
    pub fn step(&mut self, input: SelectorInput) -> (r: SelectorStep)
        ensures
            final(self)@ == old(self)@.next(input).0,
            r == old(self)@.next(input).1,
            final(self)@.wf(),
    {
        proof {
            use_type_invariant(&*self);
        }
        if !input.open || input.escape {
            return SelectorStep::Cancelled;
        }
        if let Some((mx, my)) = input.mouse {
            let here: (usize, usize) = (clamp_to(mx, self.win_w), clamp_to(my, self.win_h));
            if input.left_down {
                let from: (usize, usize) = match self.drag_start {
                    Some(s) => s,
                    None => here,
                };
                let selection = Some(span(from, here));
                *self = Selector {
                    win_w: self.win_w,
                    win_h: self.win_h,
                    drag_start: Some(from),
                    selection,
                };
            } else if self.drag_start.is_some() {
                let selection = self.selection;
                *self = Selector {
                    win_w: self.win_w,
                    win_h: self.win_h,
                    drag_start: None,
                    selection: None,
                };
                if let Some((x1, y1, x2, y2)) = selection {
                    if x2 - x1 > MIN_DRAG && y2 - y1 > MIN_DRAG {
                        return SelectorStep::Chosen(
                            Region { x: x1, y: y1, width: x2 - x1, height: y2 - y1 },
                        );
                    }
                }
            }
        }
        SelectorStep::Drawing
    }
}

/// A round keeps the window and the rule that the selection lies in it.
pub proof fn law_step_keeps_wf(v: SelectorView, input: SelectorInput)
    requires
        v.wf(),
    ensures
        v.next(input).0.wf(),
        v.next(input).0.win_w == v.win_w,
        v.next(input).0.win_h == v.win_h,
{
}

/// Escape, and closing the window, call the choice off in every state.
pub proof fn law_escape_cancels(v: SelectorView, input: SelectorInput)
    ensures
        v.next(input).1 is Cancelled <==> (!input.open || input.escape),
        v.next(input).1 is Cancelled ==> v.next(input).0 == v,
{
}

/// It does not matter in which direction a drag goes.
pub proof fn law_drag_direction(a: (usize, usize), b: (usize, usize))
    ensures
        spanned(a, b) == spanned(b, a),
{
}

/// A region that is chosen is more than `MIN_DRAG` pixels wide and high and
/// lies in the window.
pub proof fn law_chosen_region(v: SelectorView, input: SelectorInput)
    requires
        v.wf(),
    ensures
        v.next(input).1 matches SelectorStep::Chosen(r) ==> {
            &&& r.width > MIN_DRAG
            &&& r.height > MIN_DRAG
            &&& r.x + r.width < v.win_w
            &&& r.y + r.height < v.win_h
        },
{
}

/// Rounds in which the button is down and the mouse is in sight.
pub open spec fn dragging(inputs: Seq<SelectorInput>) -> bool {
    forall|i: int|
        0 <= i < inputs.len() ==> {
            &&& (#[trigger] inputs[i]).open
            &&& !inputs[i].escape
            &&& inputs[i].left_down
            &&& inputs[i].mouse is Some
        }
}

/// While the button is down, what is selected is spanned by the place where it
/// went down and the place where the mouse is, whatever lay between.
pub proof fn law_selection_spans_drag(v: SelectorView, inputs: Seq<SelectorInput>)
    requires
        v.drag_start is None,
        inputs.len() > 0,
        dragging(inputs),
    ensures
        v.after(inputs) == (SelectorView {
            drag_start: Some(v.in_window(inputs[0].mouse->0)),
            selection: Some(
                spanned(v.in_window(inputs[0].mouse->0), v.in_window(inputs.last().mouse->0)),
            ),
            ..v
        }),
    decreases inputs.len(),
{
    let before = inputs.drop_last();
    assert(inputs.last() == inputs[inputs.len() - 1]);
    if before.len() > 0 {
        assert(dragging(before)) by {
            assert forall|i: int| 0 <= i < before.len() implies {
                &&& (#[trigger] before[i]).open
                &&& !before[i].escape
                &&& before[i].left_down
                &&& before[i].mouse is Some
            } by {
                assert(before[i] == inputs[i]);
            }
        }
        law_selection_spans_drag(v, before);
        assert(before[0] == inputs[0]);
    } else {
        assert(v.after(before) == v);
    }
}

/// Letting go after a drag chooses the region that it spans where that is large
/// enough, and otherwise leaves nothing selected.
pub proof fn law_release_ends_drag(
    v: SelectorView,
    inputs: Seq<SelectorInput>,
    release: SelectorInput,
)
    requires
        v.drag_start is None,
        inputs.len() > 0,
        dragging(inputs),
        release.open,
        !release.escape,
        !release.left_down,
        release.mouse is Some,
    ensures
        ({
            let sel = spanned(
                v.in_window(inputs[0].mouse->0),
                v.in_window(inputs.last().mouse->0),
            );
            v.after(inputs).next(release) == (
                SelectorView { drag_start: None, selection: None, ..v },
                if large_enough(sel) {
                    SelectorStep::Chosen(region_of(sel))
                } else {
                    SelectorStep::Drawing
                },
            )
        }),
{
    law_selection_spans_drag(v, inputs);
}

/// A drag, from the place where the button goes down to the place where the mouse
/// is last seen with it down. While it lasts, the selection runs from the smaller
/// to the larger coordinate of the two places. Letting go chooses the rectangle
/// between the two places where they are more than ten pixels apart both ways,
/// and nothing otherwise. A place beyond the window counts as its last pixel.
pub proof fn law_drag_written_out(
    v: SelectorView,
    inputs: Seq<SelectorInput>,
    release: SelectorInput,
)
    requires
        v.drag_start is None,
        inputs.len() > 0,
        forall|i: int|
            0 <= i < inputs.len() ==> {
                &&& (#[trigger] inputs[i]).open
                &&& !inputs[i].escape
                &&& inputs[i].left_down
                &&& inputs[i].mouse is Some
            },
        release.open,
        !release.escape,
        !release.left_down,
        release.mouse is Some,
    ensures
        ({
            let a = inputs[0].mouse->0;
            let b = inputs[inputs.len() - 1].mouse->0;
            let last_x = if v.win_w > 0 { v.win_w - 1 } else { 0 };
            let last_y = if v.win_h > 0 { v.win_h - 1 } else { 0 };
            let ax = if a.0 <= last_x { a.0 as int } else { last_x };
            let ay = if a.1 <= last_y { a.1 as int } else { last_y };
            let bx = if b.0 <= last_x { b.0 as int } else { last_x };
            let by = if b.1 <= last_y { b.1 as int } else { last_y };
            let left = if ax <= bx { ax } else { bx };
            let right = if ax <= bx { bx } else { ax };
            let top = if ay <= by { ay } else { by };
            let bottom = if ay <= by { by } else { ay };
            let held = v.after(inputs);
            let done = held.next(release);
            &&& held.selection matches Some(sel) && sel.0 == left && sel.1 == top && sel.2 == right
                && sel.3 == bottom
            &&& match done.1 {
                SelectorStep::Chosen(r) => {
                    &&& right - left > 10
                    &&& bottom - top > 10
                    &&& r.x == left
                    &&& r.y == top
                    &&& r.x + r.width == right
                    &&& r.y + r.height == bottom
                },
                SelectorStep::Drawing => right - left <= 10 || bottom - top <= 10,
                SelectorStep::Cancelled => false,
            }
            &&& done.0.drag_start is None
            &&& done.0.selection is None
            &&& done.0.win_w == v.win_w
            &&& done.0.win_h == v.win_h
        }),
{
    assert(dragging(inputs));
    assert(inputs.last() == inputs[inputs.len() - 1]);
    law_selection_spans_drag(v, inputs);
}

/// Letting go of the button, whatever state the drag is in: the corners of the
/// selection alone decide whether it is chosen, and are those of what is chosen.
pub proof fn law_release_written_out(v: SelectorView, release: SelectorInput)
    requires
        v.drag_start is Some,
        v.selection matches Some(s) && s.0 <= s.2 && s.1 <= s.3,
        release.open,
        !release.escape,
        !release.left_down,
        release.mouse is Some,
    ensures
        ({
            let sel = v.selection->0;
            match v.next(release).1 {
                SelectorStep::Chosen(r) => {
                    &&& sel.2 - sel.0 > 10
                    &&& sel.3 - sel.1 > 10
                    &&& r.x == sel.0
                    &&& r.y == sel.1
                    &&& r.x + r.width == sel.2
                    &&& r.y + r.height == sel.3
                },
                SelectorStep::Drawing => sel.2 - sel.0 <= 10 || sel.3 - sel.1 <= 10,
                SelectorStep::Cancelled => false,
            }
        }),
{
}

/// Only letting go of the button in sight of the window chooses; a mouse out of
/// sight, and one that is not dragging, change nothing.
pub proof fn law_other_rounds_choose_nothing(v: SelectorView, input: SelectorInput)
    ensures
        v.next(input).1 is Chosen ==> {
            &&& input.open
            &&& !input.escape
            &&& !input.left_down
            &&& input.mouse is Some
            &&& v.drag_start is Some
        },
        input.open && !input.escape && input.mouse is None ==> v.next(input) == (
            v,
            SelectorStep::Drawing,
        ),
        input.open && !input.escape && !input.left_down && v.drag_start is None
            && v.selection is None ==> v.next(input) == (v, SelectorStep::Drawing),
        !input.open || input.escape ==> v.next(input) == (v, SelectorStep::Cancelled),
{
}

} // verus!
