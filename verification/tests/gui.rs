use newport::gui::{
    Builder, Button, ButtonResponse, Context, Label, Layout, PaintCmd, Style, UiInput,
};
use newport::math::{Rect, Vector2};

fn v(x: i64, y: i64) -> Vector2 {
    Vector2::new(x, y)
}

fn quiet_input() -> UiInput {
    UiInput { mouse_pos: None, mouse_down: false, mouse_pressed: false, mouse_released: false }
}

fn panel() -> Layout {
    Layout::new(Rect::from_min_max(v(0, 0), v(200, 600)))
}

#[test]
fn rect_constructors_and_corners() {
    let r = Rect::from_min_max(v(1, 2), v(7, 10));
    assert_eq!(r.bottom_left(), v(1, 2));
    assert_eq!(r.top_right(), v(7, 10));
    assert_eq!(r.bottom_right(), v(7, 2));
    assert_eq!(r.top_left(), v(1, 10));
    assert_eq!(r.size(), v(6, 8));
    assert_eq!(r.center(), v(4, 6));
}

#[test]
fn rect_from_center_halves_the_size() {
    let r = Rect::from_center(v(10, 10), v(6, 4));
    assert_eq!(r.min, v(7, 8));
    assert_eq!(r.max, v(13, 12));
    let odd = Rect::from_center(v(0, 0), v(5, 5));
    assert_eq!(odd.min, v(-2, -2));
    assert_eq!(odd.max, v(2, 2));
}

#[test]
fn rect_point_overlap_includes_edges() {
    let r = Rect::from_min_max(v(0, 0), v(10, 10));
    assert!(r.point_overlap(v(0, 0)));
    assert!(r.point_overlap(v(10, 10)));
    assert!(r.point_overlap(v(5, 5)));
    assert!(!r.point_overlap(v(11, 5)));
    assert!(!r.point_overlap(v(5, -1)));
}

#[test]
fn rect_intersect_overlaps_expand() {
    let a = Rect::from_min_max(v(0, 0), v(10, 10));
    let b = Rect::from_min_max(v(5, 5), v(15, 15));
    let c = Rect::from_min_max(v(20, 20), v(30, 30));
    assert!(a.overlaps(b));
    assert!(!a.overlaps(c));
    let i = a.intersect(b);
    assert_eq!(i.min, v(5, 5));
    assert_eq!(i.max, v(10, 10));
    let e = a.expand(b);
    assert_eq!(e.min, v(0, 0));
    assert_eq!(e.max, v(15, 15));
}

#[test]
fn rect_translate_moves_both_corners() {
    let r = Rect::from_min_max(v(1, 1), v(3, 3)).translate(v(10, -1));
    assert_eq!(r.min, v(11, 0));
    assert_eq!(r.max, v(13, 2));
}

#[test]
fn rect_splits_cut_bands_off() {
    let mut r = Rect::from_min_max(v(0, 0), v(100, 100));
    let top = r.split_top(10);
    assert_eq!(top, Rect::from_min_max(v(0, 90), v(100, 100)));
    let bottom = r.split_bottom(20);
    assert_eq!(bottom, Rect::from_min_max(v(0, 0), v(100, 20)));
    let left = r.split_left(30);
    assert_eq!(left, Rect::from_min_max(v(0, 20), v(30, 90)));
    let right = r.split_right(40);
    assert_eq!(right, Rect::from_min_max(v(60, 20), v(100, 90)));
    assert_eq!(r, Rect::from_min_max(v(30, 20), v(60, 90)));
}

#[test]
fn rect_edge_getters() {
    let r = Rect::from_min_max(v(2, 3), v(9, 11));
    assert_eq!(r.width(), 7);
    assert_eq!(r.height(), 8);
    assert_eq!(r.left(), 2);
    assert_eq!(r.right(), 9);
    assert_eq!(r.top(), 11);
    assert_eq!(r.bottom(), 3);
}

#[test]
fn add_spacing_consumes_layout() {
    let mut b = Builder::new(0, panel(), Context::new(quiet_input()));
    b.add_spacing(25);
    let avail = b.available_rect();
    assert_eq!(avail.max.y, 575);
}

#[test]
fn vector_add_sub() {
    assert_eq!(v(1, 2).add(v(3, 4)), v(4, 6));
    assert_eq!(v(1, 2).sub(v(3, 4)), v(-2, -2));
}

#[test]
fn focus_is_granted_once_until_released() {
    let mut b = Builder::new(0, panel(), Context::new(quiet_input()));
    assert!(b.focus(1));
    assert!(b.is_focused(1));
    assert!(!b.focus(2));
    assert!(!b.unfocus(2));
    assert!(b.unfocus(1));
    assert!(!b.is_focused(1));
    b.force_focus(2);
    assert!(b.is_focused(2));
}

#[test]
fn hover_follows_last_widget() {
    let mut b = Builder::new(0, panel(), Context::new(quiet_input()));
    b.hover(7);
    assert!(b.is_hovered(7));
    assert!(!b.unhover(8));
    assert!(b.is_hovered(7));
    assert!(b.unhover(7));
    assert!(!b.is_hovered(7));
}

#[test]
fn style_round_trip_and_available_rect() {
    let mut b = Builder::new(0, panel(), Context::new(quiet_input()));
    let mut style = b.style();
    style.margin = 9;
    b.set_style(style);
    assert_eq!(b.style().margin, 9);
    let avail = b.available_rect();
    assert_eq!(avail.min, v(0, 0));
    assert_eq!(avail.max, v(200, 600));
}

#[test]
fn content_bounds_takes_from_the_top() {
    let mut b = Builder::new(0, panel(), Context::new(quiet_input()));
    let r = b.content_bounds(v(10, 10));
    // content 10+2*6 = 22 on each side; the band adds a margin of 4 per side.
    assert_eq!(r.size(), v(22, 22));
    assert_eq!(r.min.y, 570);
    let avail = b.available_rect();
    assert_eq!(avail.max.y, 600 - 30);
}

#[test]
fn button_press_then_release_clicks() {
    // Frame 1: pointer pressed over the button's rectangle.
    let input1 = UiInput {
        mouse_pos: Some(v(10, 580)),
        mouse_down: true,
        mouse_pressed: true,
        mouse_released: false,
    };
    let mut b = Builder::new(0, panel(), Context::new(input1));
    let r1: ButtonResponse = b.button(String::from("OK"));
    assert!(r1.hovered);
    assert!(r1.pressed);
    assert!(!r1.released);
    assert!(!r1.clicked);
    let ctx = b.finish();
    assert_eq!(ctx.layers.len(), 1);
    assert_eq!(ctx.layers[0].cmds.len(), 2);
    assert!(matches!(ctx.layers[0].cmds[0], PaintCmd::Rect { .. }));
    assert!(matches!(ctx.layers[0].cmds[1], PaintCmd::Text { .. }));

    // Frame 2: pointer released over the same rectangle.
    let mut ctx = ctx;
    ctx.input = UiInput {
        mouse_pos: Some(v(10, 580)),
        mouse_down: false,
        mouse_pressed: false,
        mouse_released: true,
    };
    let mut b2 = Builder::new(0, panel(), ctx);
    let r2 = b2.button(String::from("OK"));
    assert!(r2.hovered);
    assert!(!r2.pressed);
    assert!(r2.released);
    assert!(r2.clicked);
    let ctx2 = b2.finish();
    assert!(ctx2.focused.is_none());
}

#[test]
fn button_away_from_pointer_is_not_hovered() {
    let input = UiInput {
        mouse_pos: Some(v(199, 1)),
        mouse_down: false,
        mouse_pressed: false,
        mouse_released: false,
    };
    let mut b = Builder::new(0, panel(), Context::new(input));
    let r = b.button(String::from("OK"));
    assert!(!r.hovered);
    assert!(!r.pressed);
    assert!(!r.clicked);
}

#[test]
fn explicit_button_id_controls_focus_identity() {
    let input = UiInput {
        mouse_pos: Some(v(10, 580)),
        mouse_down: true,
        mouse_pressed: true,
        mouse_released: false,
    };
    let mut b = Builder::new(0, panel(), Context::new(input));
    let r = Button::new(String::from("OK")).id(42).build(&mut b);
    assert!(r.pressed);
    assert!(b.is_focused(42));
    assert!(b.is_hovered(42));
}

#[test]
fn label_records_one_text_command() {
    let mut b = Builder::new(0, panel(), Context::new(quiet_input()));
    b.label(String::from("hello"));
    Label::new(String::from("world")).build(&mut b);
    let ctx = b.finish();
    assert_eq!(ctx.layers[0].cmds.len(), 2);
    assert!(matches!(ctx.layers[0].cmds[0], PaintCmd::Text { .. }));
}

#[test]
fn layout_push_size_clamps_to_space_left() {
    let mut l = Layout::new(Rect::from_min_max(v(0, 0), v(100, 50)));
    let first = l.push_size(v(40, 30));
    assert_eq!(first.min, v(0, 20));
    assert_eq!(first.max, v(40, 50));
    let second = l.push_size(v(500, 500));
    assert_eq!(second.min, v(0, 0));
    assert_eq!(second.max, v(100, 20));
    assert_eq!(l.space_left(), v(100, 0));
}

#[test]
fn style_default_is_well_formed() {
    let s = Style::default();
    assert_eq!(s.margin, 4);
    assert_eq!(s.padding, 6);
    assert_eq!(s.label_size, 16);
}
