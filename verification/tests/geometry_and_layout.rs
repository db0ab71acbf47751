use cvkit::calculator::{button_label, calculator_layout, label_origin};
use cvkit::geometry::{circle_radius, drag_rect, Point, Rect, Size};
use cvkit::histogram::histogram_segments;
use cvkit::pacing::wait_time;
use cvkit::palette::{color_space_at, ColorSpace, COLOR_SPACE_COUNT};
use cvkit::stitch::{extent, quad_corners, stitch_plan, Extent};

#[test]
fn drag_rect_normalizes_corners() {
    let r = drag_rect(Point::new(10, 20), Point::new(5, 30));
    assert_eq!(r, Rect::new(5, 20, 5, 10));
    assert_eq!(drag_rect(Point::new(5, 30), Point::new(10, 20)), r);
    assert_eq!(drag_rect(Point::new(7, 7), Point::new(7, 7)), Rect::new(7, 7, 0, 0));
}

#[test]
fn rect_center_rounds_toward_zero() {
    assert_eq!(Rect::new(10, 20, 5, 7).center(), Point::new(12, 23));
    assert_eq!(Rect::new(0, 0, -5, -3).center(), Point::new(-2, -1));
}

#[test]
fn circle_radius_is_integer_square_root() {
    assert_eq!(circle_radius(Point::new(0, 0), Point::new(3, 4)), 5);
    assert_eq!(circle_radius(Point::new(10, 10), Point::new(11, 11)), 1);
    assert_eq!(circle_radius(Point::new(0, 0), Point::new(0, 0)), 0);
    assert_eq!(circle_radius(Point::new(100, 100), Point::new(0, 0)), 141);
    assert_eq!(circle_radius(Point::new(0, 0), Point::new(100, 100)), 141);
    // agrees with rounding the floating-point square root down
    for d in [2, 99, 1000, 46340] {
        let r = circle_radius(Point::new(0, 0), Point::new(d, 0));
        assert_eq!(r, d);
        let r2 = circle_radius(Point::new(0, 0), Point::new(d / 2, d / 2));
        let f = (((d / 2) as f64).powi(2) * 2.0).sqrt() as i32;
        assert_eq!(r2, f);
    }
}

#[test]
fn calculator_grid_layout() {
    let b = calculator_layout(800, 70, 400, 100);
    assert_eq!(b.len(), 17);
    assert_eq!(b[0].label, "7");
    assert_eq!(b[0].rect, Rect::new(800, 170, 100, 100));
    assert_eq!(b[5].label, "5");
    assert_eq!(b[5].rect, Rect::new(900, 270, 100, 100));
    assert_eq!(b[15].label, "=");
    assert_eq!(b[15].rect, Rect::new(1100, 470, 100, 100));
    assert_eq!(b[16].label, "");
    assert_eq!(b[16].rect, Rect::new(800, 70, 400, 100));
    let labels: Vec<&str> = b.iter().map(|x| x.label).collect();
    assert_eq!(
        labels,
        vec!["7", "8", "9", "*", "4", "5", "6", "-", "1", "2", "3", "+", "0", "/", ".", "=", ""]
    );
    assert_eq!(button_label(3, 1), "/");
}

#[test]
fn calculator_buttons_do_not_overlap() {
    let b = calculator_layout(800, 70, 400, 100);
    for i in 0..16 {
        for j in 0..16 {
            if i != j {
                let (p, q) = (b[i].rect, b[j].rect);
                let overlap = p.x < q.x + q.width
                    && q.x < p.x + p.width
                    && p.y < q.y + q.height
                    && q.y < p.y + p.height;
                assert!(!overlap, "{i} and {j} overlap");
            }
        }
    }
}

#[test]
fn calculator_label_origin() {
    assert_eq!(label_origin(&Rect::new(900, 270, 100, 100)), Point::new(930, 340));
}

#[test]
fn wait_time_keeps_at_least_one_ms() {
    assert_eq!(wait_time(33, 10), 23);
    assert_eq!(wait_time(33, 32), 1);
    assert_eq!(wait_time(33, 40), 1);
    assert_eq!(wait_time(0, 0), 1);
}

#[test]
fn histogram_segments_join_bins() {
    let s = histogram_segments(&vec![10, 20, 0], 2, 400);
    assert_eq!(s.len(), 2);
    assert_eq!(s[0], (Point::new(0, 390), Point::new(2, 380)));
    assert_eq!(s[1], (Point::new(2, 380), Point::new(4, 400)));
    assert!(histogram_segments(&vec![], 2, 400).is_empty());
    assert!(histogram_segments(&vec![5], 2, 400).is_empty());
}

#[test]
fn color_spaces_in_slider_order() {
    assert_eq!(COLOR_SPACE_COUNT, 10);
    assert_eq!(color_space_at(0), ColorSpace::Bgra);
    assert_eq!(color_space_at(1), ColorSpace::Gray);
    assert_eq!(color_space_at(7), ColorSpace::YCrCb);
    assert_eq!(color_space_at(9), ColorSpace::HlsFullFromRgb);
}

#[test]
fn stitch_corners_and_plan() {
    let c1 = quad_corners(640, 480, 480);
    assert_eq!(
        c1,
        vec![Point::new(0, 0), Point::new(0, 479), Point::new(639, 479), Point::new(639, 0)]
    );
    let c2 = quad_corners(300, 200, 480);
    assert_eq!(c2[2], Point::new(299, 479));
    let mut pts = c2.clone();
    pts.extend([Point::new(-50, -20), Point::new(-40, 500), Point::new(590, 510), Point::new(600, -10)]);
    let e = extent(&pts);
    assert_eq!(e, Extent { min_x: -50, min_y: -20, max_x: 600, max_y: 510 });
    let p = stitch_plan(&e, 300, 200);
    assert_eq!(p.canvas, Size::new(650, 530));
    assert_eq!(p.offset, Point::new(50, 20));
    assert_eq!(p.canvas_roi, Rect::new(50, 20, 300, 200));
    assert_eq!(p.source_roi, Rect::new(0, 0, 300, 200));
    let small = stitch_plan(&Extent { min_x: -10, min_y: -10, max_x: 100, max_y: 50 }, 300, 200);
    assert_eq!(small.source_roi, Rect::new(0, 0, 100, 50));
}

#[test]
fn extent_of_nothing_is_inverted() {
    let e = extent(&vec![]);
    assert_eq!(e, Extent { min_x: i32::MAX, min_y: i32::MAX, max_x: i32::MIN, max_y: i32::MIN });
}
