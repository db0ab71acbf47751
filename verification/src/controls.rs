//! Keyboard and mouse handling of the interactive tools, as state machines:
//! the event loop hands each key code and mouse event to these functions and
//! carries out the action they return.
use vstd::prelude::*;
use crate::geometry::{Point, Rect, drag_rect, drag_rect_spec, drag_fits, circle_radius, radius_fits, is_isqrt, dist2};

verus! {

/// The key code returned by a key wait matches the character `ch`: only the
/// low byte of the code is compared.
pub open spec fn key_matches(key: i32, ch: char) -> bool {
    (key & 0xFFi32) == (ch as u32) as i32
}

/// Whether the key code `key` stands for the character `ch`.
pub fn key_is(key: i32, ch: char) -> (res: bool)
    ensures
        res == key_matches(key, ch),
{
    (key & 0xFF) == (ch as u32) as i32
}

/// Only the low byte of a key code counts: codes that differ in higher
/// bits stand for the same character.
pub proof fn lemma_key_low_byte(key: i32, ch: char)
    ensures
        key_matches(key, ch) == key_matches(key & 0xFFi32, ch),
{
    assert((key & 0xFFi32) & 0xFFi32 == key & 0xFFi32) by (bit_vector);
}

/// The mouse events the tools react to.
#[derive(Clone, Copy, Debug, PartialEq, Eq, Structural)]
pub enum MouseEvent {
    /// The left button went down at a point.
    LeftDown(Point),
    /// The left button went up at a point.
    LeftUp(Point),
    /// The mouse moved to a point.
    Move(Point),
    /// Any other event.
    Other,
}

/// The phases of a rectangle selection by dragging.
#[derive(Clone, Copy, Debug, PartialEq, Eq, Structural)]
pub enum DragPhase {
    /// Nothing is being selected.
    Idle,
    /// The button is down and the mouse has not moved yet.
    Pressed,
    /// The mouse is being dragged with the button down.
    Dragging,
    /// The button was released; the selection awaits being committed.
    Released,
}

/// A rectangle selected by dragging with the left button.
#[derive(Clone, Copy, Debug, PartialEq, Eq, Structural)]
pub struct RectSelector {
    pub phase: DragPhase,
    pub start: Point,
    pub end: Point,
}

/// What the frame shows of the selection.
#[derive(Clone, Copy, Debug, PartialEq, Eq, Structural)]
pub enum SelectionView {
    /// Draw the rectangle on the image for good, then show the image.
    Commit(Rect),
    /// Show a copy of the image with the rectangle drawn on it.
    Preview(Rect),
    /// Show the image.
    Plain,
}

/// The selector after a mouse event: pressing the button starts a new
/// selection at that point, the first move after pressing starts dragging,
/// further moves while dragging follow the mouse, and releasing the button
/// ends the selection at that point.
pub open spec fn selector_after_mouse(s: RectSelector, ev: MouseEvent) -> RectSelector {
    match ev {
        MouseEvent::LeftDown(p) => RectSelector { phase: DragPhase::Pressed, start: p, end: p },
        MouseEvent::LeftUp(p) => RectSelector { phase: DragPhase::Released, end: p, ..s },
        MouseEvent::Move(p) => {
            if s.phase == DragPhase::Pressed {
                RectSelector { phase: DragPhase::Dragging, ..s }
            } else if s.phase == DragPhase::Dragging {
                RectSelector { end: p, ..s }
            } else {
                s
            }
        },
        MouseEvent::Other => s,
    }
}

/// What a frame shows, and the selector after it: a released selection is
/// committed once and the selector goes back to idle; a selection being
/// dragged is previewed.
pub open spec fn selector_frame(s: RectSelector) -> (SelectionView, RectSelector) {
    let r = drag_rect_spec(s.start, s.end);
    if s.phase == DragPhase::Released {
        (SelectionView::Commit(r), RectSelector { phase: DragPhase::Idle, ..s })
    } else if s.phase == DragPhase::Dragging {
        (SelectionView::Preview(r), s)
    } else {
        (SelectionView::Plain, s)
    }
}

impl RectSelector {
    /// An idle selector with both corners at the origin.
    pub fn new() -> (s: RectSelector)
        ensures
            s.phase == DragPhase::Idle,
            s.start == (Point { x: 0, y: 0 }),
            s.end == (Point { x: 0, y: 0 }),
    {
        RectSelector { phase: DragPhase::Idle, start: Point { x: 0, y: 0 }, end: Point { x: 0, y: 0 } }
    }

    /// Handles a mouse event.
    pub fn on_mouse(&mut self, ev: MouseEvent)
        ensures
            *final(self) == selector_after_mouse(*old(self), ev),
            ev is Move && old(self).phase != DragPhase::Pressed && old(self).phase
                != DragPhase::Dragging ==> *final(self) == *old(self),
            ev is Move ==> final(self).start == old(self).start,
            ev is Move && old(self).phase != DragPhase::Dragging ==> final(self).end == old(self).end,
    {
        match ev {
            MouseEvent::LeftDown(p) => {
                self.start = p;
                self.end = p;
                self.phase = DragPhase::Pressed;
            },
            MouseEvent::LeftUp(p) => {
                self.end = p;
                self.phase = DragPhase::Released;
            },
            MouseEvent::Move(p) => {
                if self.phase == DragPhase::Pressed {
                    self.phase = DragPhase::Dragging;
                } else if self.phase == DragPhase::Dragging {
                    self.end = p;
                }
            },
            MouseEvent::Other => {},
        }
    }

    /// Decides what the current frame shows of the selection.
    pub fn frame(&mut self) -> (v: SelectionView)
        requires
            drag_fits(old(self).start, old(self).end),
        ensures
            (v, *final(self)) == selector_frame(*old(self)),
    {
        let r = drag_rect(self.start, self.end);
        if self.phase == DragPhase::Released {
            self.phase = DragPhase::Idle;
            SelectionView::Commit(r)
        } else if self.phase == DragPhase::Dragging {
            SelectionView::Preview(r)
        } else {
            SelectionView::Plain
        }
    }

    /// The area to cut out: the selected rectangle, when it has pixels.
    pub fn cut_area(&self) -> (r: Option<Rect>)
        requires
            drag_fits(self.start, self.end),
        ensures
            r == (if drag_rect_spec(self.start, self.end).width > 0 && drag_rect_spec(
                self.start,
                self.end,
            ).height > 0 {
                Some(drag_rect_spec(self.start, self.end))
            } else {
                None
            }),
    {
        let r = drag_rect(self.start, self.end);
        if r.width > 0 && r.height > 0 {
            Some(r)
        } else {
            None
        }
    }
}

/// Pressing the button at `p`, releasing it at `q` and then rendering a
/// frame commits exactly the rectangle spanned by `p` and `q`, and leaves the
/// selector idle; the next frame then shows the plain image.
pub proof fn lemma_release_commits_once(s: RectSelector, p: Point, q: Point)
    requires
        drag_fits(p, q),
    ensures
        ({
            let s1 = selector_after_mouse(selector_after_mouse(s, MouseEvent::LeftDown(p)), MouseEvent::LeftUp(q));
            let (v, s2) = selector_frame(s1);
            &&& v == SelectionView::Commit(drag_rect_spec(p, q))
            &&& s2.phase == DragPhase::Idle
            &&& selector_frame(s2).0 == SelectionView::Plain
        }),
{
}

/// A mouse move changes the selector only while a drag is under way: once
/// the button is released (or before it is pressed) moves leave the
/// selection as it is. A move right after the press only starts the drag,
/// and a move during the drag only moves the end corner.
pub proof fn lemma_moves_outside_drag_ignored(s: RectSelector, p: Point)
    ensures
        s.phase != DragPhase::Pressed && s.phase != DragPhase::Dragging ==> selector_after_mouse(
            s,
            MouseEvent::Move(p),
        ) == s,
        s.phase == DragPhase::Pressed ==> selector_after_mouse(s, MouseEvent::Move(p)).start == s.start
            && selector_after_mouse(s, MouseEvent::Move(p)).end == s.end,
        s.phase == DragPhase::Dragging ==> selector_after_mouse(s, MouseEvent::Move(p)).start == s.start
            && selector_after_mouse(s, MouseEvent::Move(p)).end == p
            && selector_after_mouse(s, MouseEvent::Move(p)).phase == DragPhase::Dragging,
{
}

/// Pressing at `p`, dragging, releasing at `q` and then moving the mouse
/// anywhere before the frame still commits the rectangle from `p` to `q`.
pub proof fn lemma_release_fixes_selection(s: RectSelector, p: Point, m: Point, q: Point, after: Point)
    requires
        drag_fits(p, q),
    ensures
        ({
            let s1 = selector_after_mouse(selector_after_mouse(s, MouseEvent::LeftDown(p)), MouseEvent::Move(m));
            let s2 = selector_after_mouse(selector_after_mouse(s1, MouseEvent::LeftUp(q)), MouseEvent::Move(after));
            &&& s2.start == p
            &&& s2.end == q
            &&& selector_frame(s2).0 == SelectionView::Commit(drag_rect_spec(p, q))
            &&& selector_after_mouse(selector_frame(s2).1, MouseEvent::Move(after)) == selector_frame(s2).1
        }),
{
}

/// While dragging, the preview always spans the press point and the
/// current mouse position.
pub proof fn lemma_drag_previews(s: RectSelector, p: Point, m1: Point, m2: Point)
    requires
        drag_fits(p, m2),
    ensures
        ({
            let s1 = selector_after_mouse(selector_after_mouse(s, MouseEvent::LeftDown(p)), MouseEvent::Move(m1));
            let s2 = selector_after_mouse(s1, MouseEvent::Move(m2));
            &&& s1.phase == DragPhase::Dragging
            &&& selector_frame(s2).0 == SelectionView::Preview(drag_rect_spec(p, m2))
        }),
{
}

/// The shapes the sketcher draws.
#[derive(Clone, Copy, Debug, PartialEq, Eq, Structural)]
pub enum ShapeKind {
    Line,
    Rectangle,
    Circle,
}

/// The label shown for the current shape.
pub fn shape_label(kind: ShapeKind) -> (s: &'static str)
    ensures
        kind == ShapeKind::Line ==> s@ == "L"@,
        kind == ShapeKind::Rectangle ==> s@ == "R"@,
        kind == ShapeKind::Circle ==> s@ == "C"@,
{
    match kind {
        ShapeKind::Line => "L",
        ShapeKind::Rectangle => "R",
        ShapeKind::Circle => "C",
    }
}

/// A finished shape, ready to be drawn.
#[derive(Clone, Copy, Debug, PartialEq, Eq, Structural)]
pub enum Stroke {
    Line(Point, Point),
    Rectangle(Rect),
    /// A circle: its centre and its radius.
    Circle(Point, i32),
}

/// Draws a shape from the point where the left button goes down to the
/// point where it goes up.
#[derive(Clone, Copy, Debug, PartialEq, Eq, Structural)]
pub struct ShapeSketcher {
    pub shape: ShapeKind,
    /// A shape has been completed and not drawn yet.
    pub pending: bool,
    pub start: Point,
    pub end: Point,
}

/// The sketcher after a mouse event: pressing sets the start point,
/// releasing sets the end point and completes a shape.
pub open spec fn sketcher_after_mouse(s: ShapeSketcher, ev: MouseEvent) -> ShapeSketcher {
    match ev {
        MouseEvent::LeftDown(p) => ShapeSketcher { start: p, ..s },
        MouseEvent::LeftUp(p) => ShapeSketcher { end: p, pending: true, ..s },
        _ => s,
    }
}

/// The completed shape can be computed in `i32`.
pub open spec fn stroke_fits(s: ShapeSketcher) -> bool {
    &&& s.shape == ShapeKind::Rectangle ==> drag_fits(s.start, s.end)
    &&& s.shape == ShapeKind::Circle ==> radius_fits(s.start, s.end)
}

/// `st` is the shape of the current kind from `start` to `end`; a circle is
/// centred at `start` and passes through `end`.
pub open spec fn is_stroke(s: ShapeSketcher, st: Stroke) -> bool {
    match s.shape {
        ShapeKind::Line => st == Stroke::Line(s.start, s.end),
        ShapeKind::Rectangle => st == Stroke::Rectangle(drag_rect_spec(s.start, s.end)),
        ShapeKind::Circle => st matches Stroke::Circle(c, r) && c == s.start && is_isqrt(
            r as int,
            dist2(s.start, s.end),
        ),
    }
}

/// Only the button events change the sketcher: moves and other events
/// leave it as it is, and only the release sets the end point.
pub proof fn lemma_sketcher_ignores_moves(s: ShapeSketcher, p: Point)
    ensures
        sketcher_after_mouse(s, MouseEvent::Move(p)) == s,
        sketcher_after_mouse(s, MouseEvent::Other) == s,
        sketcher_after_mouse(s, MouseEvent::LeftDown(p)).end == s.end,
        !sketcher_after_mouse(s, MouseEvent::LeftDown(p)).pending || s.pending,
{
}

/// Pressing at `p`, releasing at `q` and then moving the mouse to `m`
/// leaves a shape pending from `p` to `q`: the shape ends where the button
/// was released.
pub proof fn lemma_shape_ends_at_release(s: ShapeSketcher, p: Point, q: Point, m: Point)
    ensures
        ({
            let s1 = sketcher_after_mouse(
                sketcher_after_mouse(sketcher_after_mouse(s, MouseEvent::LeftDown(p)), MouseEvent::LeftUp(q)),
                MouseEvent::Move(m),
            );
            &&& s1.pending
            &&& s1.start == p
            &&& s1.end == q
            &&& s1.shape == s.shape
            &&& (s.shape == ShapeKind::Line ==> is_stroke(s1, Stroke::Line(p, q)))
            &&& (s.shape == ShapeKind::Rectangle ==> is_stroke(s1, Stroke::Rectangle(drag_rect_spec(p, q))))
        }),
{
}

/// The commands of the sketcher's keys.
#[derive(Clone, Copy, Debug, PartialEq, Eq, Structural)]
pub enum SketchCommand {
    Quit,
    Select(ShapeKind),
    Nothing,
}

/// The sketcher's keys: `q` quits, `l` selects lines, `r` rectangles and
/// `c` circles.
pub fn sketch_command(key: i32) -> (c: SketchCommand)
    ensures
        c == (if key_matches(key, 'q') {
            SketchCommand::Quit
        } else if key_matches(key, 'l') {
            SketchCommand::Select(ShapeKind::Line)
        } else if key_matches(key, 'r') {
            SketchCommand::Select(ShapeKind::Rectangle)
        } else if key_matches(key, 'c') {
            SketchCommand::Select(ShapeKind::Circle)
        } else {
            SketchCommand::Nothing
        }),
{
    if key_is(key, 'q') {
        SketchCommand::Quit
    } else if key_is(key, 'l') {
        SketchCommand::Select(ShapeKind::Line)
    } else if key_is(key, 'r') {
        SketchCommand::Select(ShapeKind::Rectangle)
    } else if key_is(key, 'c') {
        SketchCommand::Select(ShapeKind::Circle)
    } else {
        SketchCommand::Nothing
    }
}

impl ShapeSketcher {
    /// A sketcher drawing lines, with nothing pending.
    pub fn new() -> (s: ShapeSketcher)
        ensures
            s.shape == ShapeKind::Line,
            !s.pending,
            s.start == (Point { x: 0, y: 0 }),
            s.end == (Point { x: 0, y: 0 }),
    {
        ShapeSketcher {
            shape: ShapeKind::Line,
            pending: false,
            start: Point { x: 0, y: 0 },
            end: Point { x: 0, y: 0 },
        }
    }

    /// Handles a mouse event.
    pub fn on_mouse(&mut self, ev: MouseEvent)
        ensures
            *final(self) == sketcher_after_mouse(*old(self), ev),
            !(ev is LeftDown) && !(ev is LeftUp) ==> *final(self) == *old(self),
            !(ev is LeftUp) ==> final(self).end == old(self).end,
    {
        match ev {
            MouseEvent::LeftDown(p) => {
                self.start = p;
            },
            MouseEvent::LeftUp(p) => {
                self.end = p;
                self.pending = true;
            },
            _ => {},
        }
    }

    /// Selects the kind of shape drawn next.
    pub fn select(&mut self, kind: ShapeKind)
        ensures
            *final(self) == (ShapeSketcher { shape: kind, ..*old(self) }),
    {
        self.shape = kind;
    }

    /// Takes the completed shape, if any: it is returned once and the
    /// sketcher waits for the next one.
    pub fn take_stroke(&mut self) -> (st: Option<Stroke>)
        requires
            old(self).pending ==> stroke_fits(*old(self)),
        ensures
            *final(self) == (ShapeSketcher { pending: false, ..*old(self) }),
            old(self).pending <==> st is Some,
            st matches Some(st) ==> is_stroke(*old(self), st),
    {
        if !self.pending {
            return None;
        }
        self.pending = false;
        match self.shape {
            ShapeKind::Line => Some(Stroke::Line(self.start, self.end)),
            ShapeKind::Rectangle => Some(Stroke::Rectangle(drag_rect(self.start, self.end))),
            ShapeKind::Circle => Some(Stroke::Circle(self.start, circle_radius(self.start, self.end))),
        }
    }
}

/// The commands of the cut-out tool's keys.
#[derive(Clone, Copy, Debug, PartialEq, Eq, Structural)]
pub enum CutCommand {
    Quit,
    /// Select rectangles (the only selection shape).
    SelectRectangle,
    /// Cut out the selected area.
    Cut,
    Nothing,
}

/// The cut-out tool's keys: `q` quits, `r` selects rectangles, `g` cuts.
pub fn cut_command(key: i32) -> (c: CutCommand)
    ensures
        c == (if key_matches(key, 'q') {
            CutCommand::Quit
        } else if key_matches(key, 'r') {
            CutCommand::SelectRectangle
        } else if key_matches(key, 'g') {
            CutCommand::Cut
        } else {
            CutCommand::Nothing
        }),
{
    if key_is(key, 'q') {
        CutCommand::Quit
    } else if key_is(key, 'r') {
        CutCommand::SelectRectangle
    } else if key_is(key, 'g') {
        CutCommand::Cut
    } else {
        CutCommand::Nothing
    }
}

/// The commands of the image viewer that can save the image.
#[derive(Clone, Copy, Debug, PartialEq, Eq, Structural)]
pub enum SaveCommand {
    Quit,
    Save,
    Nothing,
}

/// The saving viewer's keys: `q` quits, `w` writes the image.
pub fn save_command(key: i32) -> (c: SaveCommand)
    ensures
        c == (if key_matches(key, 'q') {
            SaveCommand::Quit
        } else if key_matches(key, 'w') {
            SaveCommand::Save
        } else {
            SaveCommand::Nothing
        }),
{
    if key_is(key, 'q') {
        SaveCommand::Quit
    } else if key_is(key, 'w') {
        SaveCommand::Save
    } else {
        SaveCommand::Nothing
    }
}

} // verus!
