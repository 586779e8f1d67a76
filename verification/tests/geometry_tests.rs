use walk_the_dog::geometry::Point;
use walk_the_dog::geometry::Rect;

fn rect(x: i16, y: i16, width: i16, height: i16) -> Rect {
    Rect { position: Point { x, y }, width, height }
}

#[test]
fn two_rects_that_intersect_on_the_left() {
    let rect1 = Rect {
        position: Point { x: 10, y: 10 },
        height: 100,
        width: 100,
    };
    let rect2 = Rect {
        position: Point { x: 0, y: 10 },
        height: 100,
        width: 100,
    };
    assert_eq!(rect2.intersects(&rect1), true);
}

#[test]
fn rects_separated_on_the_x_axis_do_not_intersect() {
    let a = rect(0, 0, 50, 50);
    let b = rect(60, 0, 50, 50);
    assert!(!a.intersects(&b));
    assert!(!b.intersects(&a));
}

#[test]
fn rects_separated_on_the_y_axis_do_not_intersect() {
    let a = rect(0, 0, 50, 50);
    let b = rect(0, 80, 50, 50);
    assert!(!a.intersects(&b));
    assert!(!b.intersects(&a));
}

#[test]
fn rects_touching_on_an_edge_do_not_intersect() {
    let a = rect(0, 0, 50, 50);
    let b = rect(50, 0, 50, 50);
    assert!(!a.intersects(&b));
    assert!(!b.intersects(&a));
    let c = rect(0, 50, 50, 50);
    assert!(!a.intersects(&c));
    assert!(!c.intersects(&a));
}

#[test]
fn rects_touching_only_at_a_corner_do_not_intersect() {
    let a = rect(0, 0, 50, 50);
    let b = rect(50, 50, 50, 50);
    assert!(!a.intersects(&b));
    assert!(!b.intersects(&a));
}

#[test]
fn rects_with_positive_overlap_on_both_axes_intersect() {
    let a = rect(0, 0, 50, 50);
    let b = rect(49, 49, 10, 10);
    assert!(a.intersects(&b));
    assert!(b.intersects(&a));
}

#[test]
fn rect_contained_in_another_intersects() {
    let outer = rect(0, 0, 100, 100);
    let inner = rect(20, 20, 10, 10);
    assert!(outer.intersects(&inner));
    assert!(inner.intersects(&outer));
}

#[test]
fn rect_accessors_report_edges() {
    let r = rect(10, 20, 30, 40);
    assert_eq!(r.x(), 10);
    assert_eq!(r.y(), 20);
    assert_eq!(r.right(), 40);
    assert_eq!(r.bottom(), 60);
}

#[test]
fn rect_mutators_move_the_box() {
    let mut r = rect(10, 20, 30, 40);
    r.set_x(100);
    assert_eq!(r.x(), 100);
    r.add_x(-30);
    assert_eq!(r.x(), 70);
    r.add_y(5);
    assert_eq!(r.y(), 25);
    assert_eq!(r.width, 30);
    assert_eq!(r.height, 40);
}
