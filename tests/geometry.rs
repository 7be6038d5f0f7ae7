use substrate::geometry::{Point, Rect, Scalable, Translate, TranslateOwned};

#[test]
fn points_translate_and_scale() {
    let mut p = Point::new(2, -3);
    p.translate(Point::new(5, 4));
    assert_eq!(p, Point::new(7, 1));
    assert_eq!(p.translate_owned(Point::new(-7, -1)), Point::zero());
    let mut q = Point::new(3, -2);
    q.scale(Point::new(4, 5));
    assert_eq!(q, Point::new(12, -10));
}

#[test]
fn rects_translate_both_corners() {
    let mut r = Rect::new(Point::new(0, 0), Point::new(10, 5));
    r.translate(Point::new(1, 2));
    assert_eq!(r, Rect::new(Point::new(1, 2), Point::new(11, 7)));
    let s = r.translate_owned(Point::new(-1, -2));
    assert_eq!(s, Rect::new(Point::new(0, 0), Point::new(10, 5)));
}
