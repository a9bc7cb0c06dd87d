//! An immediate-mode interface layer: a builder that lays widgets out in a
//! vertical column, tracks which widget is hovered and focused, and records
//! paint commands for the host to draw.

use vstd::prelude::*;
use crate::math::{Rect, Vector2};
use vstd::string::StringSliceAdditionalSpecFns;
use vstd::utf8::encode_utf8;

verus! {

/// Identifies one widget across frames.
pub type Id = u64;

/// A packed RGBA colour.
pub type Color = u32;

/// Bound on style metrics and label sizes, so that layout arithmetic stays
/// far inside `i64`.
pub const METRIC_LIMIT: i64 = 0x10000;

/// Bound on layout coordinates.
pub const LAYOUT_LIMIT: i64 = 0x1000_0000_0000;

/// The pointer state the host hands the interface each frame.
#[derive(Clone, Copy, PartialEq, Eq, Structural, Debug)]
pub struct UiInput {
    pub mouse_pos: Option<Vector2>,
    pub mouse_down: bool,
    pub mouse_pressed: bool,
    pub mouse_released: bool,
}

/// One recorded draw command.
pub enum PaintCmd {
    Rect { bounds: Rect, color: Color },
    Text { text: String, at: Vector2, size: i64, color: Color, scissor: Rect },
}

/// Records draw commands in order.
pub struct Painter {
    pub cmds: Vec<PaintCmd>,
}

impl Painter {
    pub fn new() -> (r: Painter)
        ensures
            r.cmds@ == Seq::<PaintCmd>::empty(),
    {
        Painter { cmds: Vec::new() }
    }

    /// Records a filled rectangle.
    pub fn push_rect(&mut self, bounds: Rect, color: Color)
        ensures
            final(self).cmds@ == old(self).cmds@.push(PaintCmd::Rect { bounds, color }),
    {
        self.cmds.push(PaintCmd::Rect { bounds, color });
    }

    /// Records a run of text, clipped to `scissor`.
    pub fn push_text(&mut self, text: String, at: Vector2, size: i64, color: Color, scissor: Rect)
        ensures
            final(self).cmds@ == old(self).cmds@.push(
                PaintCmd::Text { text, at, size, color, scissor },
            ),
    {
        self.cmds.push(PaintCmd::Text { text, at, size, color, scissor });
    }
}

/// Spacing metrics and the widget palette.
#[derive(Clone, Copy, PartialEq, Eq, Structural, Debug)]
pub struct Style {
    pub margin: i64,
    pub padding: i64,
    pub label_size: i64,
    pub focused_background: Color,
    pub hovered_background: Color,
    pub unhovered_background: Color,
    pub focused_foreground: Color,
    pub hovered_foreground: Color,
    pub unhovered_foreground: Color,
}

/// Metrics are nonnegative and bounded.
pub open spec fn style_wf(s: Style) -> bool {
    &&& 0 <= s.margin <= METRIC_LIMIT
    &&& 0 <= s.padding <= METRIC_LIMIT
    &&& 1 <= s.label_size <= METRIC_LIMIT
}

/// The box a label of `len` bytes takes at text size `size`: half a size per
/// byte across, one size high.
pub open spec fn spec_string_size(size: i64, len: int) -> Vector2 {
    Vector2 { x: ((size / 2) * len) as i64, y: size }
}

/// Content clamped into the available space, with padding added on each
/// side.
pub open spec fn spec_content_size(s: Style, needed: Vector2, available: Vector2) -> Vector2 {
    let w = needed.x + 2 * s.padding;
    let h = needed.y + 2 * s.padding;
    Vector2 {
        x: (if w <= available.x as int { w } else { available.x as int }) as i64,
        y: (if h <= available.y as int { h } else { available.y as int }) as i64,
    }
}

/// A size grown by the margin on each side.
pub open spec fn spec_spacing_size(s: Style, v: Vector2) -> Vector2 {
    Vector2 { x: (v.x + 2 * s.margin) as i64, y: (v.y + 2 * s.margin) as i64 }
}

impl Style {
    /// The box a label takes at a text size; the label may be at most
    /// [`METRIC_LIMIT`] bytes long.
    pub fn string_rect(&self, label: &String, size: i64) -> (r: Rect)
        requires
            style_wf(*self),
            1 <= size <= METRIC_LIMIT,
            encode_utf8(label@).len() <= METRIC_LIMIT,
        ensures
            r.min == (Vector2 { x: 0, y: 0 }),
            r.max == spec_string_size(size, encode_utf8(label@).len() as int),
            r.wf(),
            0 <= r.max.x <= 0x8000_0000 && 0 <= r.max.y <= METRIC_LIMIT,
    {
        let len: usize = label.as_str().len();
        proof {
            assert((size as int / 2) * (len as int) <= 0x8000 * 0x10000 && 0 <= (size as int / 2)
                * (len as int)) by (nonlinear_arith)
                requires
                    0 <= size as int / 2 <= 0x8000,
                    0 <= len as int <= 0x10000,
            ;
        }
        let w: i64 = (size / 2) * (len as i64);
        Rect { min: Vector2 { x: 0, y: 0 }, max: Vector2 { x: w, y: size } }
    }

    /// Content clamped into the available space, with padding added.
    pub fn content_size(&self, needed: Vector2, available: Vector2) -> (r: Vector2)
        requires
            style_wf(*self),
            0 <= needed.x <= LAYOUT_LIMIT && 0 <= needed.y <= LAYOUT_LIMIT,
            0 <= available.x <= 4 * LAYOUT_LIMIT && 0 <= available.y <= 4 * LAYOUT_LIMIT,
        ensures
            r == spec_content_size(*self, needed, available),
    {
        let w: i64 = needed.x + 2 * self.padding;
        let h: i64 = needed.y + 2 * self.padding;
        Vector2 {
            x: if w <= available.x {
                w
            } else {
                available.x
            },
            y: if h <= available.y {
                h
            } else {
                available.y
            },
        }
    }

    /// A size grown by the margin on each side.
    pub fn spacing_size(&self, v: Vector2) -> (r: Vector2)
        requires
            style_wf(*self),
            0 <= v.x <= 2 * LAYOUT_LIMIT && 0 <= v.y <= 2 * LAYOUT_LIMIT,
        ensures
            r == spec_spacing_size(*self, v),
    {
        Vector2 { x: v.x + 2 * self.margin, y: v.y + 2 * self.margin }
    }
}

impl Default for Style {
    /// Modest spacing and a grey palette.
    fn default() -> (r: Style)
        ensures
            style_wf(r),
            r.margin == 4 && r.padding == 6 && r.label_size == 16,
    {
        Style {
            margin: 4,
            padding: 6,
            label_size: 16,
            focused_background: 0x3a3a3aff,
            hovered_background: 0x4a4a4aff,
            unhovered_background: 0x2a2a2aff,
            focused_foreground: 0xffffffff,
            hovered_foreground: 0xffffffff,
            unhovered_foreground: 0xccccccff,
        }
    }
}

/// A vertical column layout: widgets take rectangles from the top of the
/// bounds downward.
#[derive(Clone, Copy, PartialEq, Eq, Structural, Debug)]
pub struct Layout {
    pub bounds: Rect,
    pub used: i64,
}

/// The bounds are an ordinary rectangle inside the layout limits, and the
/// used band fits inside it.
pub open spec fn layout_wf(l: Layout) -> bool {
    &&& -LAYOUT_LIMIT <= l.bounds.min.x <= LAYOUT_LIMIT
    &&& -LAYOUT_LIMIT <= l.bounds.min.y <= LAYOUT_LIMIT
    &&& -LAYOUT_LIMIT <= l.bounds.max.x <= LAYOUT_LIMIT
    &&& -LAYOUT_LIMIT <= l.bounds.max.y <= LAYOUT_LIMIT
    &&& l.bounds.min.x <= l.bounds.max.x
    &&& l.bounds.min.y <= l.bounds.max.y
    &&& 0 <= l.used <= l.bounds.max.y - l.bounds.min.y
}

/// The rectangle a push of `size` takes: at the top of what is left, clamped
/// to the space that remains.
pub open spec fn spec_push_rect(l: Layout, size: Vector2) -> Rect {
    let width = l.bounds.max.x - l.bounds.min.x;
    let left = l.bounds.max.y - l.bounds.min.y - l.used;
    let w = if size.x as int <= width { size.x as int } else { width };
    let h = if size.y as int <= left { size.y as int } else { left };
    let top = l.bounds.max.y - l.used;
    Rect {
        min: Vector2 { x: l.bounds.min.x, y: (top - h) as i64 },
        max: Vector2 { x: (l.bounds.min.x + w) as i64, y: (top) as i64 },
    }
}

impl Layout {
    pub fn new(bounds: Rect) -> (r: Layout)
        requires
            layout_wf(Layout { bounds, used: 0 }),
        ensures
            r.bounds == bounds,
            r.used == 0,
    {
        Layout { bounds, used: 0 }
    }

    /// The space no widget has taken yet.
    pub fn available_rect(&self) -> (r: Rect)
        requires
            layout_wf(*self),
        ensures
            r.min == self.bounds.min,
            r.max.x == self.bounds.max.x,
            r.max.y == self.bounds.max.y - self.used,
    {
        Rect {
            min: self.bounds.min,
            max: Vector2 { x: self.bounds.max.x, y: self.bounds.max.y - self.used },
        }
    }

    /// How much room is left, as a size.
    pub fn space_left(&self) -> (r: Vector2)
        requires
            layout_wf(*self),
        ensures
            r.x == self.bounds.max.x - self.bounds.min.x,
            r.y == self.bounds.max.y - self.bounds.min.y - self.used,
    {
        Vector2 {
            x: self.bounds.max.x - self.bounds.min.x,
            y: self.bounds.max.y - self.bounds.min.y - self.used,
        }
    }

    /// Takes a band of the given size from the top of what is left; what
    /// does not fit is clamped.
    pub fn push_size(&mut self, size: Vector2) -> (r: Rect)
        requires
            layout_wf(*old(self)),
            0 <= size.x <= 4 * LAYOUT_LIMIT,
            0 <= size.y <= 4 * LAYOUT_LIMIT,
        ensures
            layout_wf(*final(self)),
            final(self).bounds == old(self).bounds,
            r == spec_push_rect(*old(self), size),
            final(self).used == old(self).used + (r.max.y - r.min.y),
    {
        let width: i64 = self.bounds.max.x - self.bounds.min.x;
        let left: i64 = self.bounds.max.y - self.bounds.min.y - self.used;
        let w: i64 = if size.x <= width {
            size.x
        } else {
            width
        };
        let h: i64 = if size.y <= left {
            size.y
        } else {
            left
        };
        let top: i64 = self.bounds.max.y - self.used;
        self.used = self.used + h;
        Rect {
            min: Vector2 { x: self.bounds.min.x, y: top - h },
            max: Vector2 { x: self.bounds.min.x + w, y: top },
        }
    }
}

/// Shared interface state: the focused and hovered widgets, the style, the
/// frame's input, and the finished paint layers.
pub struct Context {
    pub focused: Option<Id>,
    pub hovered: Option<Id>,
    pub style: Style,
    pub input: UiInput,
    pub layers: Vec<Painter>,
}

impl Context {
    pub fn new(input: UiInput) -> (r: Context)
        ensures
            r.focused is None,
            r.hovered is None,
            style_wf(r.style),
            r.input == input,
            r.layers@ == Seq::<Painter>::empty(),
    {
        Context {
            focused: None,
            hovered: None,
            style: Style::default(),
            input,
            layers: Vec::new(),
        }
    }
}

/// What a widget learned about the pointer during its build.
#[derive(Clone, Copy, PartialEq, Eq, Structural, Debug)]
pub struct ButtonResponse {
    pub hovered: bool,
    pub pressed: bool,
    pub released: bool,
    pub clicked: bool,
}

/// Builds one layer of widgets: lays them out, resolves hover and focus, and
/// records their paint commands.
pub struct Builder {
    pub id: Id,
    pub layout: Layout,
    pub painter: Painter,
    pub context: Context,
}

impl Builder {
    /// The builder and the state it carries are well formed.
    pub open spec fn wf(&self) -> bool {
        layout_wf(self.layout) && style_wf(self.context.style)
    }

    pub fn new(id: Id, layout: Layout, context: Context) -> (r: Builder)
        ensures
            r.id == id,
            r.layout == layout,
            r.context == context,
            r.painter.cmds@ == Seq::<PaintCmd>::empty(),
    {
        Builder { id, layout, painter: Painter::new(), context }
    }

    /// Ends the layer: the recorded paint commands join the context's
    /// layers, and the context is handed back.
    pub fn finish(self) -> (r: Context)
        ensures
            r.layers@ == self.context.layers@.push(self.painter),
            r.focused == self.context.focused,
            r.hovered == self.context.hovered,
            r.style == self.context.style,
            r.input == self.context.input,
    {
        let Builder { id: _, layout: _, painter, mut context } = self;
        context.layers.push(painter);
        context
    }

    /// The frame's pointer state.
    pub fn input(&self) -> (r: UiInput)
        ensures
            r == self.context.input,
    {
        self.context.input
    }

    /// Whether this widget holds the focus.
    pub fn is_focused(&self, id: Id) -> (r: bool)
        ensures
            r == (self.context.focused == Some(id)),
    {
        match &self.context.focused {
            Some(focused) => *focused == id,
            None => false,
        }
    }

    /// Whether this widget is the hovered one.
    pub fn is_hovered(&self, id: Id) -> (r: bool)
        ensures
            r == (self.context.hovered == Some(id)),
    {
        match &self.context.hovered {
            Some(hovered) => *hovered == id,
            None => false,
        }
    }

    /// Takes the focus if nobody holds it; reports whether it was taken.
    pub fn focus(&mut self, id: Id) -> (r: bool)
        ensures
            r == (old(self).context.focused is None),
            final(self).context.focused == if old(self).context.focused is None {
                Some(id)
            } else {
                old(self).context.focused
            },
            final(self).context.hovered == old(self).context.hovered,
            final(self).context.style == old(self).context.style,
            final(self).context.input == old(self).context.input,
            final(self).context.layers == old(self).context.layers,
            final(self).layout == old(self).layout,
            final(self).painter == old(self).painter,
            final(self).id == old(self).id,
    {
        if self.context.focused.is_none() {
            self.context.focused = Some(id);
            return true;
        }
        false
    }

    /// Takes the focus unconditionally.
    pub fn force_focus(&mut self, id: Id)
        ensures
            final(self).context.focused == Some(id),
            final(self).context.hovered == old(self).context.hovered,
            final(self).layout == old(self).layout,
            final(self).painter == old(self).painter,
            final(self).id == old(self).id,
    {
        self.context.focused = Some(id);
    }

    /// Releases the focus if this widget holds it; reports whether it did.
    pub fn unfocus(&mut self, id: Id) -> (r: bool)
        ensures
            r == (old(self).context.focused == Some(id)),
            final(self).context.focused == if old(self).context.focused == Some(id) {
                None::<Id>
            } else {
                old(self).context.focused
            },
            final(self).context.hovered == old(self).context.hovered,
            final(self).context.style == old(self).context.style,
            final(self).context.input == old(self).context.input,
            final(self).context.layers == old(self).context.layers,
            final(self).layout == old(self).layout,
            final(self).painter == old(self).painter,
            final(self).id == old(self).id,
    {
        if self.is_focused(id) {
            self.context.focused = None;
            return true;
        }
        false
    }

    /// Marks this widget as the hovered one.
    pub fn hover(&mut self, id: Id)
        ensures
            final(self).context.hovered == Some(id),
            final(self).context.focused == old(self).context.focused,
            final(self).context.style == old(self).context.style,
            final(self).context.input == old(self).context.input,
            final(self).context.layers == old(self).context.layers,
            final(self).layout == old(self).layout,
            final(self).painter == old(self).painter,
            final(self).id == old(self).id,
    {
        self.context.hovered = Some(id);
    }

    /// Clears the hover if this widget holds it; reports whether it did.
    pub fn unhover(&mut self, id: Id) -> (r: bool)
        ensures
            r == (old(self).context.hovered == Some(id)),
            final(self).context.hovered == if old(self).context.hovered == Some(id) {
                None::<Id>
            } else {
                old(self).context.hovered
            },
            final(self).context.focused == old(self).context.focused,
            final(self).context.style == old(self).context.style,
            final(self).context.input == old(self).context.input,
            final(self).context.layers == old(self).context.layers,
            final(self).layout == old(self).layout,
            final(self).painter == old(self).painter,
            final(self).id == old(self).id,
    {
        if self.is_hovered(id) {
            self.context.hovered = None;
            return true;
        }
        false
    }

    /// The current style, by value.
    pub fn style(&self) -> (r: Style)
        ensures
            r == self.context.style,
    {
        self.context.style
    }

    /// Replaces the style.
    pub fn set_style(&mut self, style: Style)
        ensures
            final(self).context.style == style,
            final(self).context.focused == old(self).context.focused,
            final(self).context.hovered == old(self).context.hovered,
            final(self).layout == old(self).layout,
            final(self).painter == old(self).painter,
    {
        self.context.style = style;
    }

    /// The space no widget has taken yet.
    pub fn available_rect(&self) -> (r: Rect)
        requires
            self.wf(),
        ensures
            r.min == self.layout.bounds.min,
            r.max.x == self.layout.bounds.max.x,
            r.max.y == self.layout.bounds.max.y - self.layout.used,
    {
        self.layout.available_rect()
    }

    /// Reserves room for content of the given size: the content is clamped
    /// into the remaining space, spacing is added around it, and the band is
    /// taken from the layout. Returns where the content goes.
    pub fn content_bounds(&mut self, space_needed: Vector2) -> (r: Rect)
        requires
            old(self).wf(),
            0 <= space_needed.x <= LAYOUT_LIMIT,
            0 <= space_needed.y <= LAYOUT_LIMIT,
        ensures
            final(self).wf(),
            ({
                let style = old(self).context.style;
                let avail = Vector2 {
                    x: (old(self).layout.bounds.max.x - old(self).layout.bounds.min.x) as i64,
                    y: (old(self).layout.bounds.max.y - old(self).layout.bounds.min.y - old(
                        self,
                    ).layout.used) as i64,
                };
                let content = spec_content_size(style, space_needed, avail);
                let band = spec_push_rect(old(self).layout, spec_spacing_size(style, content));
                &&& r.min == band.min
                &&& r.max.x == band.min.x + content.x
                &&& r.max.y == band.min.y + content.y
                &&& final(self).layout.bounds == old(self).layout.bounds
                &&& final(self).layout.used == old(self).layout.used + (band.max.y - band.min.y)
            }),
            final(self).context == old(self).context,
            final(self).painter == old(self).painter,
    {
        let style = self.style();
        let space_available = self.layout.space_left();
        let content_size = style.content_size(space_needed, space_available);
        let layout_rect = self.layout.push_size(style.spacing_size(content_size));
        Rect {
            min: layout_rect.min,
            max: Vector2 {
                x: layout_rect.min.x + content_size.x,
                y: layout_rect.min.y + content_size.y,
            },
        }
    }

    /// Builds a button labelled `label` and reports how the pointer treated
    /// it.
    #[must_use]
    pub fn button(&mut self, label: String) -> (r: ButtonResponse)
        requires
            old(self).wf(),
            encode_utf8(label@).len() <= METRIC_LIMIT,
            pointer_in_range(old(self).context.input),
        ensures
            final(self).wf(),
            ({
                let bounds = spec_button_bounds(
                    old(self).layout,
                    old(self).context.style,
                    encode_utf8(label@).len() as int,
                );
                let (focused2, hovered1, response) = spec_button_control(
                    old(self).context.focused,
                    old(self).context.hovered,
                    old(self).context.input,
                    label_id(encode_utf8(label@)),
                    bounds,
                );
                &&& r == response
                &&& final(self).context.focused == focused2
                &&& final(self).context.hovered == hovered1
            }),
            final(self).painter.cmds@.len() == old(self).painter.cmds@.len() + 2,
            final(self).context.style == old(self).context.style,
            final(self).context.input == old(self).context.input,
            final(self).context.layers == old(self).context.layers,
    {
        Button::new(label).build(self)
    }

    /// Takes an empty square band of the given side from the layout.
    pub fn add_spacing(&mut self, amount: i64)
        requires
            old(self).wf(),
            0 <= amount <= LAYOUT_LIMIT,
        ensures
            final(self).wf(),
            final(self).layout.bounds == old(self).layout.bounds,
            final(self).layout.used == old(self).layout.used + (spec_push_rect(
                old(self).layout,
                Vector2 { x: amount, y: amount },
            ).max.y - spec_push_rect(old(self).layout, Vector2 { x: amount, y: amount }).min.y),
            final(self).context == old(self).context,
            final(self).painter == old(self).painter,
    {
        let _ = self.layout.push_size(Vector2 { x: amount, y: amount });
    }

    /// Lays a text label out and records its paint command.
    pub fn label(&mut self, label: String)
        requires
            old(self).wf(),
            encode_utf8(label@).len() <= METRIC_LIMIT,
        ensures
            final(self).wf(),
            final(self).context.focused == old(self).context.focused,
            final(self).context.hovered == old(self).context.hovered,
            final(self).context.style == old(self).context.style,
            final(self).context.input == old(self).context.input,
            final(self).context.layers == old(self).context.layers,
            final(self).painter.cmds@.len() == old(self).painter.cmds@.len() + 1,
            (final(self).painter.cmds@.last() matches PaintCmd::Text { text, at, size, color, scissor }
                && text@ == label@ && size == old(self).context.style.label_size && color == old(
                self,
            ).context.style.unhovered_foreground && scissor == spec_button_bounds(
                old(self).layout,
                old(self).context.style,
                encode_utf8(label@).len() as int,
            )),
    {
        Label::new(label).build(self)
    }
}

/// The pointer position, if any, lies inside the layout limits.
pub open spec fn pointer_in_range(input: UiInput) -> bool {
    input.mouse_pos matches Some(p) ==> -LAYOUT_LIMIT <= p.x <= LAYOUT_LIMIT && -LAYOUT_LIMIT
        <= p.y <= LAYOUT_LIMIT
}

/// Where a text widget of `len` label bytes lands: its content size is
/// clamped into the space the layout has left, spacing is added, and the
/// band is taken from the top.
pub open spec fn spec_button_bounds(layout: Layout, style: Style, len: int) -> Rect {
    let needed = spec_string_size(style.label_size, len);
    let avail = Vector2 {
        x: (layout.bounds.max.x - layout.bounds.min.x) as i64,
        y: (layout.bounds.max.y - layout.bounds.min.y - layout.used) as i64,
    };
    let content = spec_content_size(style, needed, avail);
    let band = spec_push_rect(layout, spec_spacing_size(style, content));
    Rect {
        min: band.min,
        max: Vector2 { x: (band.min.x + content.x) as i64, y: (band.min.y + content.y) as i64 },
    }
}

/// What a pointer does to one widget: hover follows overlap, a press over
/// the widget takes the focus, and a release while focused ends the press,
/// clicking when it happens over the widget.
pub open spec fn spec_button_control(
    focused0: Option<Id>,
    hovered0: Option<Id>,
    input: UiInput,
    id: Id,
    bounds: Rect,
) -> (Option<Id>, Option<Id>, ButtonResponse) {
    let over = input.mouse_pos matches Some(p) && bounds.min.x <= p.x && p.x <= bounds.max.x
        && bounds.min.y <= p.y && p.y <= bounds.max.y;
    let hovered1 = if over {
        Some(id)
    } else if hovered0 == Some(id) {
        None
    } else {
        hovered0
    };
    let took_focus = over && input.mouse_pressed && focused0 is None;
    let focused1 = if took_focus {
        Some(id)
    } else {
        focused0
    };
    let releases = focused1 == Some(id) && input.mouse_released;
    let focused2 = if releases {
        None
    } else {
        focused1
    };
    let response = ButtonResponse {
        hovered: over,
        pressed: took_focus,
        released: releases,
        clicked: releases && over,
    };
    (focused2, hovered1, response)
}

/// Resolves hover, focus, press and release for one widget against this
/// frame's pointer state.
pub fn button_control(id: Id, bounds: Rect, builder: &mut Builder) -> (r: ButtonResponse)
    ensures
        ({
            let (focused2, hovered1, response) = spec_button_control(
                old(builder).context.focused,
                old(builder).context.hovered,
                old(builder).context.input,
                id,
                bounds,
            );
            &&& r == response
            &&& final(builder).context.focused == focused2
            &&& final(builder).context.hovered == hovered1
        }),
        final(builder).context.style == old(builder).context.style,
        final(builder).context.input == old(builder).context.input,
        final(builder).context.layers == old(builder).context.layers,
        final(builder).layout == old(builder).layout,
        final(builder).painter == old(builder).painter,
        final(builder).id == old(builder).id,
{
    let over: bool = match builder.context.input.mouse_pos {
        Some(p) => bounds.point_overlap(p),
        None => false,
    };
    let mut response = ButtonResponse { hovered: over, pressed: false, released: false, clicked: false };
    if over {
        builder.hover(id);
        if builder.context.input.mouse_pressed {
            if builder.focus(id) {
                response.pressed = true;
            }
        }
    } else {
        let _ = builder.unhover(id);
    }
    if builder.is_focused(id) && builder.context.input.mouse_released {
        let _ = builder.unfocus(id);
        response.released = true;
        response.clicked = over;
    }
    response
}

/// A push-button widget.
pub struct Button {
    id: Id,
    label: String,
}

impl Button {
    /// The widget identity, derived from the label.
    pub closed spec fn id_view(&self) -> Id {
        self.id
    }

    /// The label text.
    pub closed spec fn label_view(&self) -> Seq<char> {
        self.label@
    }

    pub closed spec fn label_len(&self) -> int {
        encode_utf8(self.label@).len() as int
    }

    /// A button whose identity is derived from its label.
    pub fn new(label: String) -> (r: Button)
        ensures
            r.id_view() == label_id(encode_utf8(label@)),
            r.label_view() == label@,
            r.label_len() == encode_utf8(label@).len(),
    {
        let id = id_of_bytes(label.as_str().as_bytes());
        Button { id, label }
    }

    /// Replaces the derived identity with an explicit one.
    pub fn id(self, id: Id) -> (r: Button)
        ensures
            r.id_view() == id,
            r.label_view() == self.label_view(),
            r.label_len() == self.label_len(),
    {
        Button { id, label: self.label }
    }

    /// Lays the button out, resolves the pointer against it, and records its
    /// background and label; reports how the pointer treated it.
    #[must_use]
    pub fn build(self, builder: &mut Builder) -> (r: ButtonResponse)
        requires
            old(builder).wf(),
            self.label_len() <= METRIC_LIMIT,
            pointer_in_range(old(builder).context.input),
        ensures
            final(builder).wf(),
            ({
                let style = old(builder).context.style;
                let needed = spec_string_size(style.label_size, self.label_len());
                let bounds = spec_button_bounds(old(builder).layout, style, self.label_len());
                let (focused2, hovered1, response) = spec_button_control(
                    old(builder).context.focused,
                    old(builder).context.hovered,
                    old(builder).context.input,
                    self.id_view(),
                    bounds,
                );
                let background = if focused2 == Some(self.id_view()) {
                    style.focused_background
                } else if hovered1 == Some(self.id_view()) {
                    style.hovered_background
                } else {
                    style.unhovered_background
                };
                let foreground = if focused2 == Some(self.id_view()) {
                    style.focused_foreground
                } else if hovered1 == Some(self.id_view()) {
                    style.hovered_foreground
                } else {
                    style.unhovered_foreground
                };
                let at = Vector2 { x: bounds.min.x, y: (bounds.min.y + needed.y) as i64 };
                &&& r == response
                &&& final(builder).context.focused == focused2
                &&& final(builder).context.hovered == hovered1
                &&& final(builder).painter.cmds@.len() == old(builder).painter.cmds@.len() + 2
                &&& final(builder).painter.cmds@[final(builder).painter.cmds@.len() - 2]
                    == (PaintCmd::Rect { bounds, color: background })
                &&& final(builder).painter.cmds@[final(builder).painter.cmds@.len() - 1] matches
                    PaintCmd::Text { text, at: at2, size, color, scissor } && text@
                    == self.label_view() && at2 == at && size == style.label_size && color
                    == foreground && scissor == bounds
            }),
            final(builder).context.style == old(builder).context.style,
            final(builder).context.input == old(builder).context.input,
            final(builder).context.layers == old(builder).context.layers,
    {
        let style = builder.style();
        let label_rect = style.string_rect(&self.label, style.label_size).size();
        let bounds = builder.content_bounds(label_rect);
        let response = button_control(self.id, bounds, builder);
        let is_focused = builder.is_focused(self.id);
        let is_hovered = builder.is_hovered(self.id);
        let background_color: Color = if is_focused {
            style.focused_background
        } else if is_hovered {
            style.hovered_background
        } else {
            style.unhovered_background
        };
        let foreground_color: Color = if is_focused {
            style.focused_foreground
        } else if is_hovered {
            style.hovered_foreground
        } else {
            style.unhovered_foreground
        };
        builder.painter.push_rect(bounds, background_color);
        let at = Vector2 { x: bounds.min.x, y: bounds.min.y + label_rect.y };
        builder.painter.push_text(self.label, at, style.label_size, foreground_color, bounds);
        response
    }
}

/// A plain text widget.
pub struct Label {
    text: String,
}

impl Label {
    pub closed spec fn text_view(&self) -> Seq<char> {
        self.text@
    }

    pub closed spec fn text_len(&self) -> int {
        encode_utf8(self.text@).len() as int
    }

    pub fn new(text: String) -> (r: Label)
        ensures
            r.text_view() == text@,
            r.text_len() == encode_utf8(text@).len(),
    {
        Label { text }
    }

    /// Lays the text out and records its paint command.
    pub fn build(self, builder: &mut Builder)
        requires
            old(builder).wf(),
            self.text_len() <= METRIC_LIMIT,
        ensures
            final(builder).wf(),
            final(builder).context.focused == old(builder).context.focused,
            final(builder).context.hovered == old(builder).context.hovered,
            final(builder).painter.cmds@.len() == old(builder).painter.cmds@.len() + 1,
            final(builder).context.style == old(builder).context.style,
            final(builder).context.input == old(builder).context.input,
            final(builder).context.layers == old(builder).context.layers,
            (final(builder).painter.cmds@.last() matches PaintCmd::Text {
                text,
                at,
                size,
                color,
                scissor,
            } && text@ == self.text_view() && size == old(builder).context.style.label_size
                && color == old(builder).context.style.unhovered_foreground && scissor
                == spec_button_bounds(
                old(builder).layout,
                old(builder).context.style,
                self.text_len(),
            )),
    {
        let style = builder.style();
        let text_rect = style.string_rect(&self.text, style.label_size).size();
        let bounds = builder.content_bounds(text_rect);
        let at = Vector2 { x: bounds.min.x, y: bounds.min.y + text_rect.y };
        builder.painter.push_text(
            self.text,
            at,
            style.label_size,
            style.unhovered_foreground,
            bounds,
        );
    }
}

/// The identity a label's bytes give a widget: a fold that mixes each byte
/// into a 64-bit accumulator.
pub open spec fn label_id(bytes: Seq<u8>) -> u64
    decreases bytes.len(),
{
    if bytes.len() == 0 {
        0xcbf29ce484222325u64
    } else {
        mix(label_id(bytes.drop_last()), bytes.last())
    }
}

/// One mixing step of the identity fold.
pub open spec fn mix(h: u64, b: u8) -> u64 {
    (((h ^ (b as u64)) as int * 0x100000001b3) % 0x10000000000000000) as u64
}

/// Derives a widget identity from label bytes.
fn id_of_bytes(bytes: &[u8]) -> (r: u64)
    ensures
        r == label_id(bytes@),
{
    let n: usize = bytes.len();
    let mut h: u64 = 0xcbf29ce484222325u64;
    let mut i: usize = 0;
    proof {
        assert(bytes@.subrange(0, 0) =~= Seq::<u8>::empty());
    }
    while i < n
        invariant
            n == bytes@.len(),
            i <= n,
            h == label_id(bytes@.subrange(0, i as int)),
        decreases n - i,
    {
        let b: u8 = bytes[i];
        let ghost pre = bytes@.subrange(0, i as int);
        h = mix_step(h, b);
        proof {
            assert(bytes@.subrange(0, i as int + 1).drop_last() =~= pre);
            assert(bytes@.subrange(0, i as int + 1).last() == b);
        }
        i = i + 1;
    }
    proof {
        assert(bytes@.subrange(0, n as int) =~= bytes@);
    }
    h
}

/// One executable mixing step.
fn mix_step(h: u64, b: u8) -> (r: u64)
    ensures
        r == mix(h, b),
{
    let x: u64 = h ^ (b as u64);
    let wide: u128 = (x as u128) * 0x100000001b3u128;
    let r: u64 = (wide % 0x10000000000000000u128) as u64;
    proof {
        assert(r == mix(h, b)) by {
            assert((x as u128) * 0x100000001b3u128 == (x as int) * 0x100000001b3) by (nonlinear_arith);
        }
    }
    r
}

} // verus!
