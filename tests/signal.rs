use slotmap::SlotMap;
use substrate::signal::{Signal, SignalInfo, SignalKey, Slice, SliceOne, SliceRange};

fn two_keys() -> (SignalKey, SignalKey) {
    let mut sm: SlotMap<SignalKey, ()> = SlotMap::new();
    (sm.insert(()), sm.insert(()))
}

#[test]
fn slice_range_widths_and_indexing() {
    let r = SliceRange::new(3, 8);
    assert_eq!(r.width(), 5);
    assert_eq!(SliceRange::with_width(4), SliceRange::new(0, 4));
    assert_eq!(SliceRange::one(), SliceRange::new(0, 1));
    assert_eq!(r.index(2), SliceRange::new(5, 6));
    assert_eq!(r.index_range(1..4), SliceRange::new(4, 7));
}

#[test]
fn slices_keep_signal_and_range() {
    let (a, b) = two_keys();
    let s = Slice::with_width(a, 4);
    assert_eq!(s.signal(), a);
    assert_ne!(s.signal(), b);
    assert_eq!(s.range(), SliceRange::new(0, 4));
    assert_eq!(s.width(), 4);
    let bit = s.index(3);
    assert_eq!(bit.range(), SliceRange::new(3, 4));
    assert_eq!(bit.into_single(), SliceOne::new(a, 3));
    assert_eq!(SliceOne::from_slice(Slice::new(b, SliceRange::new(6, 7))), SliceOne::new(b, 6));
    assert_eq!(s.index_range(1..3).range(), SliceRange::new(1, 3));
}

#[test]
fn signal_width_sums_parts() {
    let (a, b) = two_keys();
    let sig = Signal::new(vec![Slice::with_width(a, 3), Slice::new(b, SliceRange::new(2, 7))]);
    assert_eq!(sig.parts().len(), 2);
    assert_eq!(sig.width(), 8);
    let rep = Signal::repeat(Slice::with_width(a, 2), 4);
    assert_eq!(rep.parts().len(), 4);
    assert_eq!(rep.width(), 8);
    assert_eq!(Signal::repeat(Slice::with_width(a, 2), 0).width(), 0);
}

#[test]
fn signal_info_name_and_width() {
    let mut info = SignalInfo::new("clk", 1);
    assert_eq!(info.name().as_str(), "clk");
    assert_eq!(info.width(), 1);
    info.set_name("data");
    assert_eq!(info.name().as_str(), "data");
    assert_eq!(info.width(), 1);
}

#[test]
fn slice_range_iterates_its_indices() {
    let idx: Vec<usize> = SliceRange::new(2, 5).into_iter().collect();
    assert_eq!(idx, vec![2, 3, 4]);
    assert_eq!(SliceRange::new(4, 4).into_iter().count(), 0);
}

#[test]
fn single_bit_becomes_width_one_slice() {
    let (a, _) = two_keys();
    let s = Slice::from_single(SliceOne::new(a, 9));
    assert_eq!(s.signal(), a);
    assert_eq!(s.range(), SliceRange::new(9, 10));
    assert_eq!(s.width(), 1);
}
