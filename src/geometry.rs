//! Integer points and rectangles, and how shapes are moved and scaled.

use vstd::prelude::*;

verus! {

/// A point in the integer plane.
#[derive(Debug, Clone, Copy, PartialEq, Eq, Hash, Default)]
pub struct Point {
    pub x: i64,
    pub y: i64,
}

/// An axis-aligned rectangle spanned by two corner points.
#[derive(Debug, Clone, Copy, PartialEq, Eq, Hash, Default)]
pub struct Rect {
    pub p0: Point,
    pub p1: Point,
}

/// Whether `a + b` fits in an `i64`.
pub open spec fn sum_fits(a: i64, b: i64) -> bool {
    i64::MIN <= a + b <= i64::MAX
}

/// Whether `a * b` fits in an `i64`.
pub open spec fn product_fits(a: i64, b: i64) -> bool {
    i64::MIN <= a * b <= i64::MAX
}

/// `q` moved by `p`.
pub open spec fn shifted(q: Point, p: Point) -> Point {
    Point { x: (q.x + p.x) as i64, y: (q.y + p.y) as i64 }
}

/// Whether `q` can be moved by `p` without overflow.
pub open spec fn can_shift(q: Point, p: Point) -> bool {
    sum_fits(q.x, p.x) && sum_fits(q.y, p.y)
}

impl Point {
    pub fn new(x: i64, y: i64) -> (r: Self)
        ensures
            r == (Point { x, y }),
    {
        Point { x, y }
    }

    /// The origin.
    pub fn zero() -> (r: Self)
        ensures
            r == (Point { x: 0, y: 0 }),
    {
        Point { x: 0, y: 0 }
    }
}

impl Rect {
    pub fn new(p0: Point, p1: Point) -> (r: Self)
        ensures
            r == (Rect { p0, p1 }),
    {
        Rect { p0, p1 }
    }
}

/// A trait for specifying how a shape is translated by a [`Point`].
pub trait Translate: Sized {
    /// Whether the shape can be translated by `p` without overflow.
    spec fn can_translate(&self, p: Point) -> bool;

    /// The shape translated by `p`.
    spec fn translated(&self, p: Point) -> Self;

    /// Translates the shape by a [`Point`] through mutation.
    fn translate(&mut self, p: Point)
        requires
            old(self).can_translate(p),
        ensures
            *final(self) == old(self).translated(p),
    ;
}

/// A trait for specifying how a shape is translated by a [`Point`].
pub trait TranslateOwned: Sized {
    /// Whether the shape can be translated by `p` without overflow.
    spec fn can_translate_owned(&self, p: Point) -> bool;

    /// The shape translated by `p`.
    spec fn translated_owned(&self, p: Point) -> Self;

    /// Consumes and translates the shape by a [`Point`], returning the new shape.
    fn translate_owned(self, p: Point) -> (r: Self)
        requires
            self.can_translate_owned(p),
        ensures
            r == self.translated_owned(p),
    ;
}

/// A trait for specifying how a shape is scaled by a [`Point`].
pub trait Scalable: Sized {
    /// Whether the shape can be scaled by `p` without overflow.
    spec fn can_scale(&self, p: Point) -> bool;

    /// The shape scaled by `p`.
    spec fn scaled(&self, p: Point) -> Self;

    /// Scales the shape by a [`Point`], scaling each dimension by its corresponding coordinate.
    fn scale(&mut self, p: Point)
        requires
            old(self).can_scale(p),
        ensures
            *final(self) == old(self).scaled(p),
    ;
}

impl Translate for Point {
    open spec fn can_translate(&self, p: Point) -> bool {
        can_shift(*self, p)
    }

    open spec fn translated(&self, p: Point) -> Point {
        shifted(*self, p)
    }

    fn translate(&mut self, p: Point) {
        self.x = self.x + p.x;
        self.y = self.y + p.y;
    }
}

impl TranslateOwned for Point {
    open spec fn can_translate_owned(&self, p: Point) -> bool {
        can_shift(*self, p)
    }

    open spec fn translated_owned(&self, p: Point) -> Point {
        shifted(*self, p)
    }

    fn translate_owned(self, p: Point) -> (r: Point) {
        let mut q = self;
        q.x = q.x + p.x;
        q.y = q.y + p.y;
        q
    }
}

impl Translate for Rect {
    open spec fn can_translate(&self, p: Point) -> bool {
        can_shift(self.p0, p) && can_shift(self.p1, p)
    }

    open spec fn translated(&self, p: Point) -> Rect {
        Rect { p0: shifted(self.p0, p), p1: shifted(self.p1, p) }
    }

    fn translate(&mut self, p: Point) {
        self.p0.translate(p);
        self.p1.translate(p);
    }
}

impl TranslateOwned for Rect {
    open spec fn can_translate_owned(&self, p: Point) -> bool {
        can_shift(self.p0, p) && can_shift(self.p1, p)
    }

    open spec fn translated_owned(&self, p: Point) -> Rect {
        Rect { p0: shifted(self.p0, p), p1: shifted(self.p1, p) }
    }

    fn translate_owned(self, p: Point) -> (r: Rect) {
        Self::new(self.p0.translate_owned(p), self.p1.translate_owned(p))
    }
}

impl Scalable for Point {
    open spec fn can_scale(&self, p: Point) -> bool {
        product_fits(self.x, p.x) && product_fits(self.y, p.y)
    }

    open spec fn scaled(&self, p: Point) -> Point {
        Point { x: (self.x * p.x) as i64, y: (self.y * p.y) as i64 }
    }

    fn scale(&mut self, p: Point) {
        self.x = self.x * p.x;
        self.y = self.y * p.y;
    }
}

} // verus!
