use aimbot::detect::{detections_from, non_max_suppression, Bboxes, Prediction};
use aimbot::geometry::{Bbox, Point2f, Ratio, FULL_CONFIDENCE};

fn region(x: i32, y: i32, w: u16, h: u16, conf: u32) -> Bbox {
    Bbox::new(x, y, w, h, conf, 0)
}

#[test]
fn suppression_orders_by_confidence_and_drops_overlaps() {
    let a = region(0, 0, 10, 10, 900000);
    let b = region(5, 5, 10, 10, 800000);
    let c = region(100, 100, 10, 10, 950000);
    let mut xs = vec![a, b, c];
    non_max_suppression(&mut xs, Ratio::new(1, 5));
    assert_eq!(xs, vec![c, a]);
}

#[test]
fn suppression_keeps_all_below_threshold() {
    let a = region(0, 0, 10, 10, 900000);
    let b = region(5, 5, 10, 10, 800000);
    let c = region(100, 100, 10, 10, 950000);
    let mut xs = vec![a, b, c];
    non_max_suppression(&mut xs, Ratio::new(1, 2));
    assert_eq!(xs, vec![c, a, b]);
}

#[test]
fn suppression_ties_keep_input_order() {
    let a = region(0, 0, 10, 10, 500);
    let b = region(50, 0, 10, 10, 500);
    let c = region(100, 0, 10, 10, 500);
    let mut xs = vec![a, b, c];
    non_max_suppression(&mut xs, Ratio::new(1, 2));
    assert_eq!(xs, vec![a, b, c]);
}

#[test]
fn suppression_leaves_no_overlapping_pair() {
    let mut xs = Vec::new();
    for i in 0..12 {
        xs.push(region(i * 4, (i % 3) * 5, 20, 20, 1000 + (i as u32 * 37) % 11));
    }
    let t = Ratio::new(3, 10);
    non_max_suppression(&mut xs, t);
    for i in 0..xs.len() {
        for j in 0..xs.len() {
            if i != j {
                assert!(!xs[i].iou_exceeds(&xs[j], t));
            }
        }
    }
}

#[test]
fn suppression_of_empty_list() {
    let mut xs: Vec<Bbox> = Vec::new();
    non_max_suppression(&mut xs, Ratio::new(1, 2));
    assert!(xs.is_empty());
}

#[test]
fn pairing_synthesizes_missing_partner() {
    let mut b = Bboxes::new();
    b.push(Bbox::new_from_xywh(0, 0, 100, 200), 0);
    b.push(Bbox::new(500, 500, 10, 10, 300000, 1), 1);
    b.build(Ratio::new(1, 2));
    assert_eq!(b.class_1.len(), 1);
    let s = b.class_1[0];
    assert_eq!(s.width(), 40);
    assert_eq!(s.ymin(), 0);
    assert_eq!(s.xmin(), 30);
    assert_eq!(s.height(), 66);
    assert_eq!(s.confidence(), FULL_CONFIDENCE);
    assert_eq!(s.class(), 1);
}

#[test]
fn pairing_takes_highest_overlap_once() {
    let mut b = Bboxes::new();
    let first = Bbox::new(0, 0, 100, 100, 900000, 0);
    let second = Bbox::new(2, 2, 100, 100, 800000, 0);
    let weak = Bbox::new(0, 0, 60, 60, 500000, 1);
    let strong = Bbox::new(0, 0, 90, 90, 600000, 1);
    b.class_0 = vec![first, second];
    b.class_1 = vec![weak, strong];
    b.build(Ratio::new(1, 10));
    // the first primary takes the better match, the second the one left
    assert_eq!(b.class_1, vec![strong, weak]);
    assert_eq!(b.class_0, vec![first, second]);
}

#[test]
fn pairing_one_partner_per_primary() {
    let mut b = Bboxes::new();
    for i in 0..5 {
        b.push(Bbox::new(i * 200, 0, 100, 200, 900000, 0), 0);
    }
    b.push(Bbox::new(20, 0, 60, 70, 700000, 1), 1);
    b.push(Bbox::new(5000, 0, 60, 70, 700000, 1), 1);
    b.build(Ratio::new(1, 10));
    assert_eq!(b.class_1.len(), b.class_0.len());
    assert_eq!(b.class_1[0], Bbox::new(20, 0, 60, 70, 700000, 1));
    for i in 1..5 {
        assert_eq!(b.class_1[i].confidence(), FULL_CONFIDENCE);
        assert_eq!(b.class_1[i].ymin(), 0);
    }
    assert_eq!(b.len(), 10);
}

#[test]
fn pairing_without_primaries_clears_secondaries() {
    let mut b = Bboxes::new();
    b.push(Bbox::new(1, 1, 5, 5, 1, 1), 1);
    b.build(Ratio::new(1, 2));
    assert_eq!(b.len(), 0);
}

#[test]
fn proximity_order() {
    let mut b = Bboxes::new();
    let far = Bbox::new_from_xywh(0, 0, 10, 10);
    let near = Bbox::new_from_xywh(95, 95, 10, 10);
    let mid = Bbox::new_from_xywh(60, 60, 10, 10);
    b.class_0 = vec![far, near, mid];
    b.class_1 = vec![mid, far];
    b.sort_by_distance(Point2f::new(100, 100));
    assert_eq!(b.class_0, vec![near, mid, far]);
    assert_eq!(b.class_1, vec![mid, far]);
}

#[test]
fn push_splits_by_class() {
    let mut b = Bboxes::new();
    b.push(Bbox::new_from_xywh(0, 0, 1, 1), 0);
    b.push(Bbox::new_from_xywh(0, 0, 2, 2), 1);
    b.push(Bbox::new_from_xywh(0, 0, 3, 3), 7);
    assert_eq!(b.class_0.len(), 1);
    assert_eq!(b.class_1.len(), 2);
}

#[test]
fn decoding_filters_clips_and_suppresses() {
    let preds = vec![
        Prediction { xmin: -5, ymin: 0, width: 50, height: 100, score_0: 800000, score_1: 100000 },
        Prediction { xmin: 0, ymin: 0, width: 45, height: 100, score_0: 700000, score_1: 100000 },
        Prediction { xmin: 300, ymin: 40, width: 20, height: 20, score_0: 100000, score_1: 600000 },
        Prediction { xmin: 600, ymin: 40, width: 20, height: 20, score_0: 100000, score_1: 200000 },
        Prediction { xmin: 900, ymin: 500, width: 300, height: 300, score_0: 900000, score_1: 0 },
    ];
    let r = detections_from(&preds, 500000, 500000, Ratio::new(1, 2), 1000, 600);
    assert_eq!(
        r.class_0,
        vec![Bbox::new(900, 500, 100, 100, 900000, 0), Bbox::new(0, 0, 50, 100, 800000, 0)]
    );
    assert_eq!(r.class_1, vec![Bbox::new(300, 40, 20, 20, 600000, 1)]);
}
