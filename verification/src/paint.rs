//! What the overlay shows: the darkened screen with a line of help, and during
//! a drag the selected part in its own colours, framed, with its size below.
use crate::geometry::{norm_rect, spanned, Rect};
use crate::overlay::OverlayState;
use crate::text::{encode_utf16, size_label, size_text, utf16};
use vstd::prelude::*;

verus! {

/// Colours are 0x00BBGGRR.
pub const WHITE: u32 = 0x00FF_FFFF;

pub const ORANGE: u32 = 0x0000_A5FF;

/// One step of drawing the overlay.
#[derive(Debug)]
pub enum PaintOp {
    /// Copy the darkened screen over the whole window.
    Backdrop { width: i32, height: i32 },
    /// Copy this part of the screenshot to where it was taken.
    Screenshot { left: i32, top: i32, width: i32, height: i32 },
    /// Draw the outline of a rectangle.
    Frame { rect: Rect, thickness: i32, color: u32 },
    /// Write a text with its upper left corner at (`x`, `y`).
    Text { x: i32, y: i32, size: i32, color: u32, units: Vec<u16> },
}

/// A drawing step with its text as a sequence.
pub enum PaintStep {
    Backdrop { width: int, height: int },
    Screenshot { left: int, top: int, width: int, height: int },
    Frame { rect: Rect, thickness: int, color: int },
    Text { x: int, y: int, size: int, color: int, units: Seq<u16> },
}

impl View for PaintOp {
    type V = PaintStep;

    open spec fn view(&self) -> PaintStep {
        match *self {
            PaintOp::Backdrop { width, height } => PaintStep::Backdrop {
                width: width as int,
                height: height as int,
            },
            PaintOp::Screenshot { left, top, width, height } => PaintStep::Screenshot {
                left: left as int,
                top: top as int,
                width: width as int,
                height: height as int,
            },
            PaintOp::Frame { rect, thickness, color } => PaintStep::Frame {
                rect,
                thickness: thickness as int,
                color: color as int,
            },
            PaintOp::Text { x, y, size, color, units } => PaintStep::Text {
                x: x as int,
                y: y as int,
                size: size as int,
                color: color as int,
                units: units@,
            },
        }
    }
}

/// The drawing steps that a list holds.
pub open spec fn steps(ops: Seq<PaintOp>) -> Seq<PaintStep> {
    Seq::new(ops.len(), |i: int| ops[i]@)
}

/// Half of a number, towards zero.
pub open spec fn half(n: int) -> int {
    if n >= 0 {
        n / 2
    } else {
        -((-n) / 2)
    }
}

/// The darkened screen and the line of help.
pub open spec fn backdrop_steps(width: int, height: int) -> Seq<PaintStep> {
    seq![
        PaintStep::Backdrop { width, height },
        PaintStep::Text {
            x: half(width) - 250,
            y: 16,
            size: 22,
            color: WHITE as int,
            units: utf16("Drag to select area  |  ESC / Right-click to cancel"@),
        },
    ]
}

/// The selected part, its frame one pixel further out, and its size below it.
pub open spec fn selection_steps(r: Rect) -> Seq<PaintStep> {
    let width = r.right - r.left;
    let height = r.bottom - r.top;
    seq![
        PaintStep::Screenshot { left: r.left as int, top: r.top as int, width, height },
        PaintStep::Frame {
            rect: Rect {
                left: (r.left - 1) as i32,
                top: (r.top - 1) as i32,
                right: (r.right + 1) as i32,
                bottom: (r.bottom + 1) as i32,
            },
            thickness: 2,
            color: ORANGE as int,
        },
        PaintStep::Text {
            x: r.left as int,
            y: r.bottom + 4,
            size: 16,
            color: ORANGE as int,
            units: utf16(size_text(width as nat, height as nat)),
        },
    ]
}

/// Whether a selection is large enough to be drawn.
pub open spec fn is_drawn(r: Rect) -> bool {
    r.right - r.left > 2 && r.bottom - r.top > 2
}

/// All that the overlay shows.
pub open spec fn overlay_steps(st: OverlayState) -> Seq<PaintStep> {
    let r = spanned(st.start, st.current);
    if st.dragging && is_drawn(r) {
        backdrop_steps(st.width as int, st.height as int) + selection_steps(r)
    } else {
        backdrop_steps(st.width as int, st.height as int)
    }
}

/// Lists the steps that draw the overlay.
pub fn compose(st: &OverlayState) -> (ops: Vec<PaintOp>)
    requires
        st.wf(),
    ensures
        steps(ops@) == overlay_steps(*st),
{
    let mut ops: Vec<PaintOp> = Vec::new();
    ops.push(PaintOp::Backdrop { width: st.width, height: st.height });
    let help: Vec<u16> = encode_utf16("Drag to select area  |  ESC / Right-click to cancel");
    ops.push(PaintOp::Text { x: st.width / 2 - 250, y: 16, size: 22, color: WHITE, units: help });
    if st.dragging {
        let r: Rect = norm_rect(st.start, st.current);
        let w: i32 = r.right - r.left;
        let h: i32 = r.bottom - r.top;
        if w > 2 && h > 2 {
            ops.push(PaintOp::Screenshot { left: r.left, top: r.top, width: w, height: h });
            let frame: Rect = Rect {
                left: r.left - 1,
                top: r.top - 1,
                right: r.right + 1,
                bottom: r.bottom + 1,
            };
            ops.push(PaintOp::Frame { rect: frame, thickness: 2, color: ORANGE });
            let label: Vec<u16> = size_label(w, h);
            ops.push(
                PaintOp::Text { x: r.left, y: r.bottom + 4, size: 16, color: ORANGE, units: label },
            );
        }
    }
    assert(steps(ops@) =~= overlay_steps(*st));
    ops
}

/// A selection that is searched when the button is released was drawn while it
/// was dragged.
pub proof fn law_searched_selection_was_drawn(st: OverlayState)
    requires
        st.dragging,
        crate::overlay::scan_area(st.start, st.current) is Some,
    ensures
        overlay_steps(st) == backdrop_steps(st.width as int, st.height as int) + selection_steps(
            crate::overlay::scan_area(st.start, st.current)->0,
        ),
{
}

/// The darkened screen covers the window, and the line of help starts 250 pixels
/// left of its middle. A selection is drawn over that while it is dragged, where
/// it is more than 2 pixels in each direction, and nothing else ever is.
pub proof fn law_backdrop_is_drawn_first(st: OverlayState)
    ensures
        ({
            let all = overlay_steps(st);
            let wide = st.start.x - st.current.x > 2 || st.current.x - st.start.x > 2;
            let high = st.start.y - st.current.y > 2 || st.current.y - st.start.y > 2;
            &&& all.len() == if st.dragging && wide && high {
                5nat
            } else {
                2
            }
            &&& all[0] == (PaintStep::Backdrop { width: st.width as int, height: st.height as int })
            &&& all[1] is Text && all[1]->y == 16 && all[1]->size == 22 && all[1]->Text_color == 0xFF_FFFF
            &&& all[1]->units == utf16("Drag to select area  |  ESC / Right-click to cancel"@)
            &&& st.width >= 0 ==> 0 <= st.width - 2 * (all[1]->x + 250) <= 1
            &&& st.width < 0 ==> 0 <= 2 * (all[1]->x + 250) - st.width <= 1
        }),
{
}

/// A drawn selection shows the screenshot at its own place, framed one pixel
/// further out, with its size 4 pixels below, whichever corner the drag started
/// from.
pub proof fn law_selection_is_drawn(st: OverlayState, left: int, top: int, right: int, bottom: int)
    requires
        st.wf(),
        st.dragging,
        right - left > 2,
        bottom - top > 2,
        (st.start.x == left && st.current.x == right) || (st.start.x == right && st.current.x == left),
        (st.start.y == top && st.current.y == bottom) || (st.start.y == bottom && st.current.y == top),
    ensures
        ({
            let all = overlay_steps(st);
            &&& all[2] == (PaintStep::Screenshot { left, top, width: right - left, height: bottom - top })
            &&& all[3] is Frame && all[3]->rect.left == left - 1 && all[3]->rect.top == top - 1
            &&& all[3]->rect.right == right + 1 && all[3]->rect.bottom == bottom + 1
            &&& all[3]->thickness == 2 && all[3]->Frame_color == 0xA5FF
            &&& all[4] is Text && all[4]->x == left && all[4]->y == bottom + 4
            &&& all[4]->size == 16 && all[4]->Text_color == 0xA5FF
            &&& all[4]->units == utf16(size_text((right - left) as nat, (bottom - top) as nat))
        }),
{
}

/// A drawing operation is seen as what it holds, and a list as one step each.
pub proof fn law_paint_views(
    a: i32,
    b: i32,
    c: i32,
    d: i32,
    rect: Rect,
    color: u32,
    units: Vec<u16>,
    ops: Seq<PaintOp>,
    i: int,
)
    ensures
        (PaintOp::Backdrop { width: a, height: b })@ == (PaintStep::Backdrop {
            width: a as int,
            height: b as int,
        }),
        (PaintOp::Screenshot { left: a, top: b, width: c, height: d })@ == (PaintStep::Screenshot {
            left: a as int,
            top: b as int,
            width: c as int,
            height: d as int,
        }),
        (PaintOp::Frame { rect, thickness: a, color })@ == (PaintStep::Frame {
            rect,
            thickness: a as int,
            color: color as int,
        }),
        (PaintOp::Text { x: a, y: b, size: c, color, units })@ == (PaintStep::Text {
            x: a as int,
            y: b as int,
            size: c as int,
            color: color as int,
            units: units@,
        }),
        steps(ops).len() == ops.len(),
        0 <= i < ops.len() ==> steps(ops)[i] == ops[i]@,
{
}

}
