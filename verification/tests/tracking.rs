use cvkit::card::{digit_group, find_digit_group, reverse_range, sizes_similar};
use cvkit::faces::{face_status, FaceHistory, FaceStatus};
use cvkit::geometry::{Point, Rect};
use cvkit::traffic::{sort_boxes, BoxVerdict, CountingLine, VehicleCounter};

fn sized(w: i32, h: i32, x: i32) -> Rect {
    Rect::new(x, 0, w, h)
}

#[test]
fn similar_sizes_within_tolerance() {
    assert!(sizes_similar(&sized(50, 30, 0), &sized(59, 21, 0), 10));
    assert!(!sizes_similar(&sized(50, 30, 0), &sized(60, 30, 0), 10));
    assert!(!sizes_similar(&sized(50, 30, 0), &sized(50, 40, 0), 10));
}

#[test]
fn digit_group_is_first_run_of_four() {
    let rects = vec![
        sized(200, 10, 0),
        sized(50, 30, 1),
        sized(52, 31, 2),
        sized(55, 29, 3),
        sized(51, 30, 4),
        sized(53, 30, 5),
    ];
    assert_eq!(find_digit_group(&rects, 10), Some(1));
    let g = digit_group(&rects, 10).unwrap();
    assert_eq!(g, vec![rects[4], rects[3], rects[2], rects[1]]);
}

#[test]
fn digit_group_restarts_after_a_break() {
    let rects = vec![
        sized(50, 30, 0),
        sized(50, 30, 1),
        sized(50, 30, 2),
        sized(90, 30, 3),
        sized(90, 30, 4),
        sized(91, 30, 5),
        sized(92, 31, 6),
    ];
    assert_eq!(find_digit_group(&rects, 10), Some(3));
}

#[test]
fn no_digit_group() {
    assert_eq!(find_digit_group(&vec![], 10), None);
    assert_eq!(find_digit_group(&vec![sized(1, 1, 0)], 10), None);
    let rects = vec![sized(50, 30, 0), sized(50, 30, 1), sized(50, 30, 2), sized(80, 30, 3)];
    assert_eq!(find_digit_group(&rects, 10), None);
    assert!(digit_group(&rects, 10).is_none());
}

#[test]
fn reverse_range_orders_left_to_right() {
    let rects: Vec<Rect> = (0..10).map(|i| sized(10, 10, 9 - i)).collect();
    let r = reverse_range(&rects, 0, 10);
    let xs: Vec<i32> = r.iter().map(|r| r.x).collect();
    assert_eq!(xs, (0..10).collect::<Vec<i32>>());
    assert!(reverse_range(&rects, 3, 3).is_empty());
}

#[test]
fn face_history_counts_frames() {
    let mut h = FaceHistory::new();
    assert_eq!(h.len(), 0);
    let face = Rect::new(100, 100, 60, 60); // centre (130, 130)
    h.update(&vec![face]);
    assert_eq!(h.count_at(Point::new(130, 130)), Some(1));
    h.update(&vec![face]);
    h.update(&vec![face]);
    assert_eq!(h.count_at(Point::new(130, 130)), Some(3));
    // a slight move keeps the old centre and adds the new one
    let moved = Rect::new(104, 104, 60, 60); // centre (134, 134): squared distance 32
    h.update(&vec![moved]);
    assert_eq!(h.count_at(Point::new(130, 130)), Some(4));
    assert_eq!(h.count_at(Point::new(134, 134)), Some(1));
    assert_eq!(h.len(), 2);
    // a far face drops both
    h.update(&vec![Rect::new(400, 400, 60, 60)]);
    assert_eq!(h.count_at(Point::new(130, 130)), None);
    assert_eq!(h.count_at(Point::new(134, 134)), None);
    assert_eq!(h.count_at(Point::new(430, 430)), Some(1));
    // an empty frame clears the history
    h.update(&vec![]);
    assert_eq!(h.len(), 0);
}

#[test]
fn face_history_distance_threshold() {
    let mut h = FaceHistory::new();
    h.update(&vec![Rect::new(0, 0, 20, 20)]); // centre (10, 10)
    // centre (16, 18): squared distance 36 + 64 = 100, not near
    h.update(&vec![Rect::new(6, 8, 20, 20)]);
    assert_eq!(h.count_at(Point::new(10, 10)), None);
    assert_eq!(h.count_at(Point::new(16, 18)), Some(1));
    // centre (16, 17): squared distance 0 + 1, near
    h.update(&vec![Rect::new(6, 7, 20, 20)]);
    assert_eq!(h.count_at(Point::new(16, 18)), Some(2));
    assert_eq!(h.count_at(Point::new(16, 17)), Some(1));
}

#[test]
fn duplicate_detections_count_once() {
    let mut h = FaceHistory::new();
    let f = Rect::new(0, 0, 10, 10);
    h.update(&vec![f, f, f]);
    assert_eq!(h.len(), 1);
    h.update(&vec![f, f]);
    assert_eq!(h.count_at(Point::new(5, 5)), Some(2));
}

#[test]
fn face_status_thresholds() {
    assert_eq!(face_status(1), FaceStatus::New);
    assert_eq!(face_status(2), FaceStatus::New);
    assert_eq!(face_status(3), FaceStatus::Recent);
    assert_eq!(face_status(10), FaceStatus::Recent);
    assert_eq!(face_status(11), FaceStatus::Steady);
}

#[test]
fn counting_line_for_frame() {
    let c = CountingLine::for_frame(720);
    assert_eq!(c.line_y, 480);
    assert_eq!(c.band, 144);
    assert_eq!((c.min_width, c.min_height, c.tolerance), (40, 40, 3));
    let c = CountingLine::for_frame(100);
    assert_eq!(c.line_y, 66);
    assert_eq!(c.band, 20);
}

#[test]
fn box_verdicts() {
    let c = CountingLine::for_frame(720);
    assert_eq!(c.assess(&Rect::new(0, 300, 80, 80)), BoxVerdict::Skipped); // above the band
    assert_eq!(c.assess(&Rect::new(0, 470, 30, 30)), BoxVerdict::Skipped); // too small
    assert_eq!(c.assess(&Rect::new(0, 470, 30, 20)), BoxVerdict::Skipped);
    assert_eq!(c.assess(&Rect::new(0, 460, 50, 40)), BoxVerdict::Counted); // centre 480
    assert_eq!(c.assess(&Rect::new(0, 462, 10, 40)), BoxVerdict::Counted); // centre 482, tall enough
    assert_eq!(c.assess(&Rect::new(0, 463, 50, 40)), BoxVerdict::Drawn); // centre 483
    assert_eq!(c.assess(&Rect::new(0, 500, 50, 40)), BoxVerdict::Drawn);
    assert_eq!(c.assess(&Rect::new(0, 336, 50, 40)), BoxVerdict::Drawn); // exactly at the band
}

#[test]
fn vehicle_counter_accumulates() {
    let mut v = VehicleCounter::new(720);
    let boxes = vec![
        Rect::new(0, 300, 80, 80),
        Rect::new(0, 460, 50, 40),
        Rect::new(10, 500, 50, 40),
        Rect::new(20, 461, 60, 40),
    ];
    let drawn = v.process_frame(&boxes);
    assert_eq!(drawn, vec![boxes[1], boxes[2], boxes[3]]);
    assert_eq!(v.total, 2);
    let drawn = v.process_frame(&vec![]);
    assert!(drawn.is_empty());
    assert_eq!(v.total, 2);
    v.process_frame(&vec![Rect::new(0, 460, 50, 40)]);
    assert_eq!(v.total, 3);
    let (d, n) = sort_boxes(&v.line, &boxes);
    assert_eq!((d.len(), n), (3, 2));
}

#[test]
fn sorting_in_parts_matches_sorting_at_once() {
    let line = CountingLine::for_frame(720);
    let a = vec![Rect::new(0, 460, 50, 40), Rect::new(0, 300, 80, 80)];
    let b = vec![Rect::new(0, 500, 50, 40), Rect::new(0, 461, 60, 40)];
    let mut all = a.clone();
    all.extend(b.iter().copied());
    let (da, na) = sort_boxes(&line, &a);
    let (db, nb) = sort_boxes(&line, &b);
    let (d, n) = sort_boxes(&line, &all);
    let mut joined = da.clone();
    joined.extend(db);
    assert_eq!(d, joined);
    assert_eq!(n, na + nb);
    assert!(n <= d.len());
}
