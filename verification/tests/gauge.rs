use rillet_core::gauge::{Atomic, GaugeCell, GaugeValue};

/// A level of single precision.
#[derive(Clone, Copy, Debug, Default, PartialEq)]
struct Single(f32);

impl GaugeValue for Single {
    fn to_bits(self) -> u64 {
        u64::from(self.0.to_bits())
    }

    fn from_bits(bits: u64) -> Self {
        Single(f32::from_bits(bits as u32))
    }

    fn encoded(self) -> u64 {
        self.to_bits()
    }

    fn decoded(bits: u64) -> Self {
        Self::from_bits(bits)
    }

    fn roundtrip(self) {}
}

/// A level of double precision.
#[derive(Clone, Copy, Debug, Default, PartialEq)]
struct Double(f64);

impl GaugeValue for Double {
    fn to_bits(self) -> u64 {
        self.0.to_bits()
    }

    fn from_bits(bits: u64) -> Self {
        Double(f64::from_bits(bits))
    }

    fn encoded(self) -> u64 {
        self.to_bits()
    }

    fn decoded(bits: u64) -> Self {
        Self::from_bits(bits)
    }

    fn roundtrip(self) {}
}

#[test]
fn load_returns_the_latest_store() {
    let cell = Atomic::new(Single(0.0f32));
    cell.store(Single(0.75));
    assert_eq!(cell.load().0, 0.75);
}

#[test]
fn negative_values_roundtrip() {
    let float = Atomic::new(Double(0.0f64));
    float.store(Double(-3.5));
    assert_eq!(float.load().0, -3.5);

    let int = Atomic::new(0i32);
    int.store(-42);
    assert_eq!(int.load(), -42);
}

#[test]
fn clones_share_the_cell() {
    let cell = Atomic::new(0u64);
    let writer = cell.clone();
    writer.store(7);
    assert_eq!(cell.load(), 7);
}

#[test]
fn equality_is_cell_identity() {
    let cell = Atomic::new(1u32);
    let same = Atomic::new(1u32);
    assert!(cell == cell.clone());
    assert!(cell != same);
}

#[test]
fn default_holds_the_value_default() {
    assert_eq!(Atomic::<Single>::default().load().0, 0.0);
    assert!(!Atomic::<bool>::default().load());
}

fn keeps<T: GaugeValue + PartialEq>(value: T) -> bool {
    let cell = Atomic::new(value);
    cell.load() == value && T::from_bits(value.to_bits()) == value
}

#[test]
fn every_extreme_roundtrips() {
    assert!(keeps(u8::MAX) && keeps(u16::MAX) && keeps(u32::MAX) && keeps(u64::MAX));
    assert!(keeps(i8::MIN) && keeps(i16::MIN) && keeps(i32::MIN) && keeps(i64::MIN));
    assert!(keeps(i8::MAX) && keeps(i16::MAX) && keeps(i32::MAX) && keeps(i64::MAX));
    assert!(keeps(usize::MAX) && keeps(isize::MIN));
    assert!(keeps(true) && keeps(false));
}

#[test]
fn words_are_two_complement() {
    assert_eq!((-1i64).to_bits(), u64::MAX);
    assert_eq!(i64::from_bits(u64::MAX), -1);
    assert_eq!(true.to_bits(), 1);
    assert!(bool::from_bits(2));
}

fn sample<C: GaugeCell>(cell: &C, value: C::Value) -> C::Value {
    cell.store(value);
    cell.load()
}

#[test]
fn cells_are_sampled_through_their_trait() {
    assert_eq!(sample(&Atomic::new(0u16), 9), 9);
}

#[test]
fn a_gauge_starts_at_the_value_default() {
    let level = Atomic::<Single>::default();
    assert_eq!(level.load().0, 0.0);
}

#[test]
fn the_handle_samples_the_latest_store() {
    let level = Atomic::<Single>::default();
    let handle = level.clone();
    level.store(Single(0.75));
    assert_eq!(handle.load().0, 0.75);
}
