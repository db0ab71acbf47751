use cvkit::controls::{
    cut_command, key_is, save_command, shape_label, sketch_command, CutCommand, DragPhase,
    MouseEvent, RectSelector, SaveCommand, SelectionView, ShapeKind, ShapeSketcher, SketchCommand,
    Stroke,
};
use cvkit::geometry::{Point, Rect};
use cvkit::matching::{correspondences, select_matches, KeepMode};
use cvkit::pixels::{binarize_cut_mask, paint_boundaries, prepare_markers, Bgr, OutOfBounds, Plane};

/// A candidate match: feature indices in the two images.
#[derive(Clone, Copy, Debug, PartialEq)]
struct Candidate {
    query: i32,
    train: i32,
}

fn m(query: i32, train: i32) -> Candidate {
    Candidate { query, train }
}

#[test]
fn cut_mask_becomes_black_and_white() {
    let mut mask = vec![0, 1, 2, 3, 4, 255];
    binarize_cut_mask(&mut mask);
    assert_eq!(mask, vec![0, 255, 0, 255, 0, 0]);
}

#[test]
fn markers_prepared_for_segmentation() {
    let unknown = vec![0, 255, 0, 255];
    let mut markers = vec![0, 0, 3, 7];
    prepare_markers(&unknown, &mut markers);
    assert_eq!(markers, vec![1, 0, 4, 0]);
}

#[test]
fn boundaries_painted_red() {
    let red = Bgr { b: 0, g: 0, r: 255 };
    let grey = Bgr { b: 9, g: 9, r: 9 };
    let mut px = vec![grey; 4];
    paint_boundaries(&vec![1, -1, 2, -1], &mut px, red);
    assert_eq!(px, vec![grey, red, grey, red]);
}

#[test]
fn plane_fill_rect() {
    let mut p = Plane::filled(6, 4, 0).unwrap();
    assert_eq!((p.width(), p.height()), (6, 4));
    assert_eq!(p.fill_rect(Rect::new(1, 1, 3, 2), 255), Ok(()));
    for y in 0..4 {
        for x in 0..6 {
            let inside = (1..4).contains(&x) && (1..3).contains(&y);
            assert_eq!(p.get(x, y), if inside { 255 } else { 0 });
        }
    }
    let before = p.into_data();
    let mut p = Plane::from_data(6, 4, before.clone()).unwrap();
    let r = Rect::new(4, 0, 3, 1);
    assert_eq!(p.fill_rect(r, 7), Err(OutOfBounds { rect: r }));
    assert_eq!(p.into_data(), before);
    let mut p = Plane::filled(2, 2, 5).unwrap();
    assert_eq!(p.fill_rect(Rect::new(-10, -10, 0, 3), 1), Ok(()));
    assert_eq!(p.into_data(), vec![5, 5, 5, 5]);
    assert!(Plane::from_data(3, 3, vec![0; 8]).is_none());
    assert!(Plane::filled(usize::MAX, 2, 0).is_none());
}

#[test]
fn match_selection_modes() {
    let groups = vec![vec![m(0, 5)], vec![m(1, 6), m(1, 7)], vec![m(2, 8), m(2, 9)], vec![]];
    let passes = vec![false, true, false, true];
    let whole = select_matches(&groups, &passes, KeepMode::WholeGroup);
    assert_eq!(whole, vec![vec![m(0, 5)], vec![m(1, 6), m(1, 7)]]);
    let best = select_matches(&groups, &passes, KeepMode::BestOnly);
    assert_eq!(best, vec![vec![m(0, 5)], vec![m(1, 6)]]);
    assert_eq!(correspondences(&whole), vec![m(0, 5), m(1, 6), m(1, 7)]);
    assert_eq!(correspondences(&best), vec![m(0, 5), m(1, 6)]);
}

#[test]
fn keys_compare_low_byte() {
    assert!(key_is('q' as i32, 'q'));
    assert!(key_is(0x100 + 'q' as i32, 'q'));
    assert!(!key_is('w' as i32, 'q'));
    assert!(!key_is(-1, 'q'));
    assert_eq!(sketch_command('c' as i32), SketchCommand::Select(ShapeKind::Circle));
    assert_eq!(sketch_command('l' as i32), SketchCommand::Select(ShapeKind::Line));
    assert_eq!(sketch_command('r' as i32), SketchCommand::Select(ShapeKind::Rectangle));
    assert_eq!(sketch_command('q' as i32), SketchCommand::Quit);
    assert_eq!(sketch_command(-1), SketchCommand::Nothing);
    assert_eq!(cut_command('g' as i32), CutCommand::Cut);
    assert_eq!(cut_command('r' as i32), CutCommand::SelectRectangle);
    assert_eq!(cut_command('x' as i32), CutCommand::Nothing);
    assert_eq!(save_command('w' as i32), SaveCommand::Save);
    assert_eq!(save_command('q' as i32), SaveCommand::Quit);
}

#[test]
fn selector_drag_sequence() {
    let mut s = RectSelector::new();
    assert_eq!(s.frame(), SelectionView::Plain);
    s.on_mouse(MouseEvent::LeftDown(Point::new(50, 60)));
    assert_eq!(s.phase, DragPhase::Pressed);
    assert_eq!(s.frame(), SelectionView::Plain);
    s.on_mouse(MouseEvent::Move(Point::new(55, 65)));
    assert_eq!(s.phase, DragPhase::Dragging);
    assert_eq!(s.frame(), SelectionView::Preview(Rect::new(50, 60, 0, 0)));
    s.on_mouse(MouseEvent::Move(Point::new(20, 80)));
    assert_eq!(s.frame(), SelectionView::Preview(Rect::new(20, 60, 30, 20)));
    s.on_mouse(MouseEvent::LeftUp(Point::new(10, 90)));
    assert_eq!(s.frame(), SelectionView::Commit(Rect::new(10, 60, 40, 30)));
    assert_eq!(s.phase, DragPhase::Idle);
    assert_eq!(s.frame(), SelectionView::Plain);
    assert_eq!(s.cut_area(), Some(Rect::new(10, 60, 40, 30)));
    s.on_mouse(MouseEvent::LeftDown(Point::new(5, 5)));
    assert_eq!(s.cut_area(), None);
    s.on_mouse(MouseEvent::Other);
    assert_eq!(s.phase, DragPhase::Pressed);
}

#[test]
fn sketcher_draws_each_shape_once() {
    let mut s = ShapeSketcher::new();
    assert_eq!(shape_label(s.shape), "L");
    assert_eq!(s.take_stroke(), None);
    s.on_mouse(MouseEvent::LeftDown(Point::new(10, 10)));
    s.on_mouse(MouseEvent::Move(Point::new(12, 12)));
    assert_eq!(s.take_stroke(), None);
    s.on_mouse(MouseEvent::LeftUp(Point::new(13, 14)));
    assert_eq!(s.take_stroke(), Some(Stroke::Line(Point::new(10, 10), Point::new(13, 14))));
    assert_eq!(s.take_stroke(), None);
    s.select(ShapeKind::Rectangle);
    assert_eq!(shape_label(s.shape), "R");
    s.on_mouse(MouseEvent::LeftDown(Point::new(30, 40)));
    s.on_mouse(MouseEvent::LeftUp(Point::new(10, 50)));
    assert_eq!(s.take_stroke(), Some(Stroke::Rectangle(Rect::new(10, 40, 20, 10))));
    s.select(ShapeKind::Circle);
    assert_eq!(shape_label(s.shape), "C");
    s.on_mouse(MouseEvent::LeftDown(Point::new(0, 0)));
    s.on_mouse(MouseEvent::LeftUp(Point::new(6, 8)));
    assert_eq!(s.take_stroke(), Some(Stroke::Circle(Point::new(0, 0), 10)));
}
