//! Signals: named buses of bits, and slices of them.

use vstd::prelude::*;

use arcstr::ArcStr;
use slotmap::DefaultKey;

verus! {

/// A slot-map key as handed out by `slotmap`; it is carried through opaquely.
#[verifier::external_type_specification]
#[verifier::external_body]
pub struct ExDefaultKey(slotmap::DefaultKey);

/// A shared immutable string of the `arcstr` crate.
#[verifier::external_type_specification]
#[verifier::external_body]
pub struct ExArcStr(arcstr::ArcStr);

/// The characters held by a shared string.
pub uninterp spec fn arc_text(s: ArcStr) -> Seq<char>;

/// Relies on `<ArcStr as Clone>::clone`: the clone shares the same characters.
pub assume_specification[ <arcstr::ArcStr as Clone>::clone ](s: &arcstr::ArcStr) -> (r: arcstr::ArcStr)
    ensures
        arc_text(r) == arc_text(*s),
;

/// Relies on `<ArcStr as From<&str>>::from`: the shared string holds the same characters.
#[verifier::external_body]
fn arcstr_from(s: &str) -> (r: ArcStr)
    ensures
        arc_text(r) == s@,
{
    ArcStr::from(s)
}

/// A key identifying a signal within a module.
pub type SignalKey = DefaultKey;

/// Name and width of a signal.
#[derive(Debug, Clone, Eq, PartialEq, Hash)]
pub struct SignalInfo {
    name: ArcStr,
    width: usize,
}

/// A concatenation of slices, least significant first.
#[derive(Clone, Debug)]
pub struct Signal {
    parts: Vec<Slice>,
}

/// A contiguous range of bits of one signal.
#[derive(Debug, Copy, Clone, Eq, PartialEq, Hash)]
pub struct Slice {
    signal: SignalKey,
    range: SliceRange,
}

/// A slice with a width of 1.
#[derive(Debug, Copy, Clone, Eq, PartialEq, Hash)]
pub struct SliceOne {
    signal: SignalKey,
    idx: usize,
}

/// A half-open range of bit indices `start..end`.
#[derive(Debug, Copy, Clone, Eq, PartialEq, Hash)]
pub struct SliceRange {
    start: usize,
    end: usize,
}

impl SliceRange {
    /// First index of the range.
    pub closed spec fn lo(self) -> nat {
        self.start as nat
    }

    /// One past the last index of the range.
    pub closed spec fn hi(self) -> nat {
        self.end as nat
    }

    /// Number of indices in the range.
    pub open spec fn spec_width(self) -> int {
        self.hi() - self.lo()
    }

    /// A range is well formed when it does not run backwards.
    pub open spec fn wf(self) -> bool {
        self.lo() <= self.hi()
    }

    #[inline]
    pub fn new(start: usize, end: usize) -> (r: Self)
        ensures
            r.lo() == start,
            r.hi() == end,
    {
        Self { start, end }
    }

    /// The range `0..end`.
    #[inline]
    pub fn with_width(end: usize) -> (r: Self)
        requires
            end > 0,
        ensures
            r.lo() == 0,
            r.hi() == end,
    {
        Self { start: 0, end }
    }

    /// The range `0..1`.
    #[inline]
    pub fn one() -> (r: Self)
        ensures
            r.lo() == 0,
            r.hi() == 1,
    {
        Self::with_width(1)
    }

    #[inline]
    pub fn width(&self) -> (r: usize)
        requires
            self.wf(),
        ensures
            r == self.spec_width(),
    {
        self.end - self.start
    }

    /// The single index `index`, counted from the start of the range.
    pub fn index(&self, index: usize) -> (r: Self)
        requires
            self.lo() + index < self.hi(),
        ensures
            r.lo() == self.lo() + index,
            r.hi() == self.lo() + index + 1,
    {
        let idx = self.start + index;
        Self::new(idx, idx + 1)
    }

    /// The sub-range `index`, counted from the start of the range.
    pub fn index_range(&self, index: std::ops::Range<usize>) -> (r: Self)
        requires
            index.start <= index.end,
            self.lo() + index.end <= self.hi(),
        ensures
            r.lo() == self.lo() + index.start,
            r.hi() == self.lo() + index.end,
    {
        Self::new(self.start + index.start, self.start + index.end)
    }
}

impl IntoIterator for SliceRange {
    type Item = usize;
    type IntoIter = std::ops::Range<usize>;

    fn into_iter(self) -> (r: std::ops::Range<usize>)
        ensures
            r.start == self.lo(),
            r.end == self.hi(),
    {
        self.start..self.end
    }
}

impl SignalInfo {
    /// The characters of the signal's name.
    pub closed spec fn spec_name(self) -> Seq<char> {
        arc_text(self.name)
    }

    /// The signal's width in bits.
    pub closed spec fn spec_width(self) -> nat {
        self.width as nat
    }

    #[inline]
    pub fn new(name: &str, width: usize) -> (r: Self)
        ensures
            r.spec_name() == name@,
            r.spec_width() == width,
    {
        Self { name: arcstr_from(name), width }
    }

    #[inline]
    pub fn name(&self) -> (r: &ArcStr)
        ensures
            arc_text(*r) == self.spec_name(),
    {
        &self.name
    }

    #[inline]
    pub fn width(&self) -> (r: usize)
        ensures
            r == self.spec_width(),
    {
        self.width
    }

    #[inline]
    pub fn set_name(&mut self, name: &str)
        ensures
            final(self).spec_name() == name@,
            final(self).spec_width() == old(self).spec_width(),
    {
        self.name = arcstr_from(name);
    }
}

impl Slice {
    /// The signal that the slice reads.
    pub closed spec fn spec_signal(self) -> SignalKey {
        self.signal
    }

    /// The bit range that the slice covers.
    pub closed spec fn spec_range(self) -> SliceRange {
        self.range
    }

    /// The slice's width in bits.
    pub open spec fn spec_width(self) -> int {
        self.spec_range().spec_width()
    }

    /// A slice is well formed when its range is.
    pub open spec fn wf(self) -> bool {
        self.spec_range().wf()
    }

    #[inline]
    pub fn new(signal: SignalKey, range: SliceRange) -> (r: Self)
        ensures
            r.spec_signal() == signal,
            r.spec_range() == range,
    {
        Self { signal, range }
    }

    /// The bits `0..width` of `signal`.
    pub fn with_width(signal: SignalKey, width: usize) -> (r: Self)
        requires
            width > 0,
        ensures
            r.spec_signal() == signal,
            r.spec_range().lo() == 0,
            r.spec_range().hi() == width,
    {
        Self { signal, range: SliceRange::with_width(width) }
    }

    #[inline]
    pub fn range(&self) -> (r: SliceRange)
        ensures
            r == self.spec_range(),
    {
        self.range
    }

    #[inline]
    pub fn width(&self) -> (r: usize)
        requires
            self.wf(),
        ensures
            r == self.spec_width(),
    {
        self.range.width()
    }

    #[inline]
    pub fn signal(&self) -> (r: SignalKey)
        ensures
            r == self.spec_signal(),
    {
        self.signal
    }

    /// The one bit of a slice of width 1.
    #[inline]
    pub fn into_single(self) -> (r: SliceOne)
        requires
            self.wf(),
            self.spec_width() == 1,
        ensures
            r.spec_signal() == self.spec_signal(),
            r.spec_idx() == self.spec_range().lo(),
    {
        SliceOne::from_slice(self)
    }

    /// The slice of width 1 that covers the bit `value`.
    pub fn from_single(value: SliceOne) -> (r: Self)
        requires
            value.spec_idx() < usize::MAX,
        ensures
            r.spec_signal() == value.spec_signal(),
            r.spec_range().lo() == value.spec_idx(),
            r.spec_range().hi() == value.spec_idx() + 1,
    {
        Self { signal: value.signal, range: SliceRange::new(value.idx, value.idx + 1) }
    }

    /// The single bit `index` of the slice.
    pub fn index(&self, index: usize) -> (r: Self)
        requires
            self.spec_range().lo() + index < self.spec_range().hi(),
        ensures
            r.spec_signal() == self.spec_signal(),
            r.spec_range().lo() == self.spec_range().lo() + index,
            r.spec_range().hi() == self.spec_range().lo() + index + 1,
    {
        Self::new(self.signal, self.range.index(index))
    }

    /// The bits `index` of the slice.
    pub fn index_range(&self, index: std::ops::Range<usize>) -> (r: Self)
        requires
            index.start <= index.end,
            self.spec_range().lo() + index.end <= self.spec_range().hi(),
        ensures
            r.spec_signal() == self.spec_signal(),
            r.spec_range().lo() == self.spec_range().lo() + index.start,
            r.spec_range().hi() == self.spec_range().lo() + index.end,
    {
        Self::new(self.signal, self.range.index_range(index))
    }
}

impl SliceOne {
    /// The signal that the bit belongs to.
    pub closed spec fn spec_signal(self) -> SignalKey {
        self.signal
    }

    /// The bit's index within its signal.
    pub closed spec fn spec_idx(self) -> nat {
        self.idx as nat
    }

    #[inline]
    pub fn new(signal: SignalKey, idx: usize) -> (r: Self)
        ensures
            r.spec_signal() == signal,
            r.spec_idx() == idx,
    {
        Self { signal, idx }
    }

    /// The one bit of a slice of width 1.
    pub fn from_slice(slice: Slice) -> (r: Self)
        requires
            slice.wf(),
            slice.spec_width() == 1,
        ensures
            r.spec_signal() == slice.spec_signal(),
            r.spec_idx() == slice.spec_range().lo(),
    {
        Self { signal: slice.signal, idx: slice.range.start }
    }
}

/// Sum of the widths of `parts`.
pub open spec fn total_width(parts: Seq<Slice>) -> int
    decreases parts.len(),
{
    if parts.len() == 0 {
        0
    } else {
        total_width(parts.drop_last()) + parts.last().spec_width()
    }
}

/// Every part of `parts` is a well-formed slice.
pub open spec fn all_wf(parts: Seq<Slice>) -> bool {
    forall|i: int| 0 <= i < parts.len() ==> (#[trigger] parts[i]).wf()
}

proof fn lemma_total_width_prefix(parts: Seq<Slice>, n: int)
    requires
        all_wf(parts),
        0 <= n <= parts.len(),
    ensures
        0 <= total_width(parts.take(n)) <= total_width(parts),
    decreases parts.len(),
{
    if parts.len() > 0 {
        let rest = parts.drop_last();
        assert(all_wf(rest)) by {
            assert forall|i: int| 0 <= i < rest.len() implies (#[trigger] rest[i]).wf() by {
                assert(rest[i] == parts[i]);
            }
        }
        assert(parts.last().wf()) by {
            assert(parts.last() == parts[parts.len() - 1]);
        }
        if n == parts.len() {
            assert(parts.take(n) =~= parts);
            lemma_total_width_prefix(rest, rest.len() as int);
            assert(rest.take(rest.len() as int) =~= rest);
        } else {
            lemma_total_width_prefix(rest, n);
            assert(rest.take(n) =~= parts.take(n));
        }
    }
}

impl Signal {
    /// The slices that make up the signal.
    pub closed spec fn spec_parts(self) -> Seq<Slice> {
        self.parts@
    }

    /// `num` copies of `part`.
    pub fn repeat(part: Slice, num: usize) -> (r: Self)
        ensures
            r.spec_parts() == Seq::new(num as nat, |_i: int| part),
    {
        let mut parts: Vec<Slice> = Vec::new();
        let mut i: usize = 0;
        while i < num
            invariant
                i <= num,
                parts@ == Seq::new(i as nat, |_i: int| part),
            decreases num - i,
        {
            parts.push(part);
            i = i + 1;
            assert(parts@ =~= Seq::new(i as nat, |_i: int| part));
        }
        Self { parts }
    }

    pub fn new(parts: Vec<Slice>) -> (r: Self)
        ensures
            r.spec_parts() == parts@,
    {
        Self { parts }
    }

    #[inline]
    pub fn parts(&self) -> (r: &[Slice])
        ensures
            r@ == self.spec_parts(),
    {
        self.parts.as_slice()
    }

    /// Total width of all parts.
    pub fn width(&self) -> (r: usize)
        requires
            all_wf(self.spec_parts()),
            total_width(self.spec_parts()) <= usize::MAX,
        ensures
            r == total_width(self.spec_parts()),
    {
        let ghost parts = self.parts@;
        let mut sum: usize = 0;
        let mut i: usize = 0;
        while i < self.parts.len()
            invariant
                parts == self.parts@,
                all_wf(parts),
                total_width(parts) <= usize::MAX,
                i <= parts.len(),
                sum == total_width(parts.take(i as int)),
            decreases parts.len() - i,
        {
            let part = self.parts[i];
            assert(parts.take(i + 1).drop_last() =~= parts.take(i as int));
            assert(parts[i as int].wf());
            proof {
                lemma_total_width_prefix(parts, i + 1);
            }
            sum = sum + part.width();
            i = i + 1;
        }
        assert(parts.take(i as int) =~= parts);
        sum
    }
}

} // verus!
