use aimbot::geometry::{Bbox, Point2f, Ratio};

#[test]
fn bound_clips_to_frame() {
    let b = Bbox::new(-10, 5, 50, 400, 700000, 0);
    let r = b.bound(30, 100);
    assert_eq!(r.xmin(), 0);
    assert_eq!(r.ymin(), 5);
    assert_eq!(r.width(), 30);
    assert_eq!(r.height(), 95);
    assert_eq!(r.confidence(), 700000);
    assert_eq!(r.class(), 0);
}

#[test]
fn bound_result_inside_frame() {
    let cases = [
        Bbox::new(-100, -100, 20, 20, 1, 0),
        Bbox::new(5000, 7000, 65535, 65535, 1, 1),
        Bbox::new(10, 10, 0, 0, 1, 0),
        Bbox::new(1900, 1000, 100, 200, 1, 0),
    ];
    for b in cases.iter() {
        let r = b.bound(1920, 1080);
        assert!(r.xmin() >= 0 && r.ymin() >= 0);
        assert!(r.xmax() <= 1920 && r.ymax() <= 1080);
        assert!(r.xmax() >= r.xmin() as i64 && r.ymax() >= r.ymin() as i64);
    }
}

#[test]
fn bound_keeps_region_already_inside() {
    let b = Bbox::new(10, 20, 30, 40, 5, 1);
    assert_eq!(b.bound(1920, 1080), b);
}

#[test]
fn intersection_counts_edges_inclusively() {
    let a = Bbox::new_from_xywh(0, 0, 10, 10);
    let b = Bbox::new_from_xywh(5, 5, 10, 10);
    assert_eq!(a.intersection_area(&b), 36);
    assert_eq!(a.union(&b), 164);
    assert_eq!(a.iou(&b), (36, 164));
    let far = Bbox::new_from_xywh(100, 100, 10, 10);
    assert_eq!(a.intersection_area(&far), 0);
}

#[test]
fn iou_is_symmetric() {
    let a = Bbox::new_from_xywh(3, 7, 40, 25);
    let b = Bbox::new_from_xywh(20, 0, 15, 50);
    assert_eq!(a.iou(&b), b.iou(&a));
    let t = Ratio::new(1, 5);
    assert_eq!(a.iou_exceeds(&b, t), b.iou_exceeds(&a, t));
}

#[test]
fn iou_threshold_comparisons() {
    let a = Bbox::new_from_xywh(0, 0, 10, 10);
    let b = Bbox::new_from_xywh(5, 5, 10, 10);
    // 36 / 164 lies between one fifth and one quarter
    assert!(a.iou_exceeds(&b, Ratio::new(1, 5)));
    assert!(!a.iou_exceeds(&b, Ratio::new(1, 4)));
    assert!(a.iou_reaches(&b, Ratio::new(36, 164)));
    assert!(!a.iou_exceeds(&b, Ratio::new(36, 164)));
}

#[test]
fn degenerate_union_never_exceeds() {
    // one-pixel regions: the inclusive intersection outweighs both areas
    let a = Bbox::new_from_xywh(0, 0, 1, 1);
    assert!(a.union(&a) <= 0);
    assert!(!a.iou_exceeds(&a, Ratio::new(0, 1)));
    assert!(!a.iou_reaches(&a, Ratio::new(0, 1)));
}

#[test]
fn centres_and_corners() {
    let b = Bbox::new(10, 20, 31, 61, 0, 0);
    assert_eq!(b.cxcy(), Point2f::new(25, 50));
    assert_eq!(b.tl(), Point2f::new(10, 20));
    assert_eq!(b.br(), Point2f::new(41, 81));
    assert_eq!(b.cxcy_scale(None, Some(Ratio::new(1, 3))), Point2f::new(25, 30));
    assert_eq!(b.area(), 31 * 61);
    assert_eq!(b.to_vec_i32(), vec![10, 20, 31, 61]);
}

#[test]
fn squared_distance() {
    let p = Point2f::new(3, 4);
    assert_eq!(p.l2_distance(&Point2f::new(0, 0)), 25);
    assert_eq!(p.x(), 3);
    assert_eq!(p.y(), 4);
}

#[test]
fn point_as_pixel_indices() {
    assert_eq!(Point2f::new(3, 4).to_vec_u32(), vec![3, 4]);
    assert_eq!(Point2f::new(-7, 5_000_000_000).to_vec_u32(), vec![0, u32::MAX]);
}
