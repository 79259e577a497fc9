//! Gauges: lock-free latest-value cells for continuous signals.
//!
//! A gauge carries a signal whose history does not matter, like an audio
//! level or a throughput. The producer stores the latest value without
//! locking, allocating, or waking anyone; consumers sample the current
//! value whenever they want it.
//!
//! Cells clone cheaply and share their storage. Cell equality is identity,
//! so a stored value never republishes a view that carries the cell.

use crate::view::CheapClone;
use std::marker::PhantomData;
use std::sync::Arc;
use std::sync::atomic::AtomicU64;
use vstd::prelude::*;

verus! {

/// A lock-free latest-value cell: stores are wait-free and
/// allocation-free, loads are wait-free.
///
/// The built-in cells guarantee this. A hand-written impl carries no such
/// check.
pub trait GaugeCell: Clone {
    type Value;

    /// Replaces the current value.
    fn store(&self, value: Self::Value);

    /// Returns the current value.
    fn load(&self) -> Self::Value;
}

/// A value representable as one machine word.
pub trait GaugeValue: Copy {
    /// The word that represents a value.
    spec fn encoded(self) -> u64;

    /// The value that a word represents.
    spec fn decoded(bits: u64) -> Self;

    fn to_bits(self) -> (bits: u64)
        ensures
            bits == self.encoded(),
    ;

    fn from_bits(bits: u64) -> (value: Self)
        ensures
            value == Self::decoded(bits),
    ;

    /// The word of a value represents that value.
    proof fn roundtrip(self)
        ensures
            Self::decoded(self.encoded()) == self,
    ;
}

impl GaugeValue for u8 {
    open spec fn encoded(self) -> u64 {
        self as u64
    }

    open spec fn decoded(bits: u64) -> Self {
        bits as u8
    }

    fn to_bits(self) -> (bits: u64) {
        #[verifier::truncate]
        (self as u64)
    }

    fn from_bits(bits: u64) -> (value: Self) {
        #[verifier::truncate]
        (bits as u8)
    }

    proof fn roundtrip(self) {
        assert((self as u64) as u8 == self) by (bit_vector);
    }
}

impl GaugeValue for u16 {
    open spec fn encoded(self) -> u64 {
        self as u64
    }

    open spec fn decoded(bits: u64) -> Self {
        bits as u16
    }

    fn to_bits(self) -> (bits: u64) {
        #[verifier::truncate]
        (self as u64)
    }

    fn from_bits(bits: u64) -> (value: Self) {
        #[verifier::truncate]
        (bits as u16)
    }

    proof fn roundtrip(self) {
        assert((self as u64) as u16 == self) by (bit_vector);
    }
}

impl GaugeValue for u32 {
    open spec fn encoded(self) -> u64 {
        self as u64
    }

    open spec fn decoded(bits: u64) -> Self {
        bits as u32
    }

    fn to_bits(self) -> (bits: u64) {
        #[verifier::truncate]
        (self as u64)
    }

    fn from_bits(bits: u64) -> (value: Self) {
        #[verifier::truncate]
        (bits as u32)
    }

    proof fn roundtrip(self) {
        assert((self as u64) as u32 == self) by (bit_vector);
    }
}

impl GaugeValue for u64 {
    open spec fn encoded(self) -> u64 {
        self as u64
    }

    open spec fn decoded(bits: u64) -> Self {
        bits as u64
    }

    fn to_bits(self) -> (bits: u64) {
        #[verifier::truncate]
        (self as u64)
    }

    fn from_bits(bits: u64) -> (value: Self) {
        #[verifier::truncate]
        (bits as u64)
    }

    proof fn roundtrip(self) {
        assert((self as u64) as u64 == self) by (bit_vector);
    }
}

impl GaugeValue for usize {
    open spec fn encoded(self) -> u64 {
        self as u64
    }

    open spec fn decoded(bits: u64) -> Self {
        bits as usize
    }

    fn to_bits(self) -> (bits: u64) {
        #[verifier::truncate]
        (self as u64)
    }

    fn from_bits(bits: u64) -> (value: Self) {
        #[verifier::truncate]
        (bits as usize)
    }

    proof fn roundtrip(self) {
        assert((self as u64) as usize == self) by (bit_vector);
    }
}

impl GaugeValue for i8 {
    open spec fn encoded(self) -> u64 {
        self as u64
    }

    open spec fn decoded(bits: u64) -> Self {
        bits as i8
    }

    fn to_bits(self) -> (bits: u64) {
        #[verifier::truncate]
        (self as u64)
    }

    fn from_bits(bits: u64) -> (value: Self) {
        #[verifier::truncate]
        (bits as i8)
    }

    proof fn roundtrip(self) {
        assert((self as u64) as i8 == self) by (bit_vector);
    }
}

impl GaugeValue for i16 {
    open spec fn encoded(self) -> u64 {
        self as u64
    }

    open spec fn decoded(bits: u64) -> Self {
        bits as i16
    }

    fn to_bits(self) -> (bits: u64) {
        #[verifier::truncate]
        (self as u64)
    }

    fn from_bits(bits: u64) -> (value: Self) {
        #[verifier::truncate]
        (bits as i16)
    }

    proof fn roundtrip(self) {
        assert((self as u64) as i16 == self) by (bit_vector);
    }
}

impl GaugeValue for i32 {
    open spec fn encoded(self) -> u64 {
        self as u64
    }

    open spec fn decoded(bits: u64) -> Self {
        bits as i32
    }

    fn to_bits(self) -> (bits: u64) {
        #[verifier::truncate]
        (self as u64)
    }

    fn from_bits(bits: u64) -> (value: Self) {
        #[verifier::truncate]
        (bits as i32)
    }

    proof fn roundtrip(self) {
        assert((self as u64) as i32 == self) by (bit_vector);
    }
}

impl GaugeValue for i64 {
    open spec fn encoded(self) -> u64 {
        self as u64
    }

    open spec fn decoded(bits: u64) -> Self {
        bits as i64
    }

    fn to_bits(self) -> (bits: u64) {
        #[verifier::truncate]
        (self as u64)
    }

    fn from_bits(bits: u64) -> (value: Self) {
        #[verifier::truncate]
        (bits as i64)
    }

    proof fn roundtrip(self) {
        assert((self as u64) as i64 == self) by (bit_vector);
    }
}

impl GaugeValue for isize {
    open spec fn encoded(self) -> u64 {
        self as u64
    }

    open spec fn decoded(bits: u64) -> Self {
        bits as isize
    }

    fn to_bits(self) -> (bits: u64) {
        #[verifier::truncate]
        (self as u64)
    }

    fn from_bits(bits: u64) -> (value: Self) {
        #[verifier::truncate]
        (bits as isize)
    }

    proof fn roundtrip(self) {
        assert((self as u64) as isize == self) by (bit_vector);
    }
}

impl GaugeValue for bool {
    open spec fn encoded(self) -> u64 {
        if self {
            1
        } else {
            0
        }
    }

    open spec fn decoded(bits: u64) -> Self {
        bits != 0
    }

    fn to_bits(self) -> (bits: u64) {
        if self {
            1
        } else {
            0
        }
    }

    fn from_bits(bits: u64) -> (value: Self) {
        bits != 0
    }

    proof fn roundtrip(self) {
    }
}

/// A handle to a word that threads share.
struct Word {
    bits: Arc<AtomicU64>,
}

/// Whether a value is one that loads of a word return.
spec fn offered(word: Word, bits: u64) -> bool {
    call_ensures(word_load, (&word,), bits)
}

/// `AtomicU64::new`: a word that offers the given value.
#[verifier::external_body]
fn word_new(bits: u64) -> (word: Word)
    ensures
        offered(word, bits),
{
    Word { bits: Arc::new(AtomicU64::new(bits)) }
}

/// `AtomicU64::store`: the word offers the given value, through this handle
/// and every other.
///
/// From when on loads return it is left unsaid, since it depends on the stores
/// of other threads. The store is relaxed: the value is complete in its one
/// word, and no other memory is published with it.
#[verifier::external_body]
fn word_store(word: &mut Word, bits: u64)
    ensures
        *final(word) == *old(word),
        offered(*final(word), bits),
{
    word.bits.store(bits, std::sync::atomic::Ordering::Relaxed);
}

/// `AtomicU64::load`.
///
/// Which value it returns is left unsaid, since it depends on the stores of
/// other threads.
#[verifier::external_body]
fn word_load(word: &Word) -> (bits: u64) {
    word.bits.load(std::sync::atomic::Ordering::Relaxed)
}

/// `Arc::ptr_eq`: whether two pointers point to the same cell.
///
/// To a proof a cell that threads share is its identity, not what it holds.
#[verifier::external_body]
fn same_cell(a: &Arc<AtomicU64>, b: &Arc<AtomicU64>) -> (same: bool)
    ensures
        same == (*a == *b),
{
    Arc::ptr_eq(a, b)
}

/// A gauge cell holding one word-sized value.
///
/// Clones share the cell. Equality is cell identity, not the current
/// value.
pub struct Atomic<T> {
    word: Word,
    _value: PhantomData<T>,
}

impl<T> Atomic<T> {
    /// Whether a word is one that loads of the cell find, through whichever
    /// clone.
    pub closed spec fn offers(&self, bits: u64) -> bool {
        offered(self.word, bits)
    }

    /// The cell that clones share.
    pub closed spec fn cell(&self) -> AtomicU64 {
        *self.word.bits
    }
}

impl<T: GaugeValue> Atomic<T> {
    /// Creates a cell holding an initial value.
    pub fn new(initial: T) -> (cell: Self)
        ensures
            cell.offers(initial.encoded()),
    {
        Atomic { word: word_new(initial.to_bits()), _value: PhantomData }
    }

    /// Replaces the current value.
    pub fn store(&self, value: T)
        ensures
            self.offers(value.encoded()),
    {
        let mut word = self.word.share();
        word_store(&mut word, value.to_bits());
    }

    /// Returns the current value.
    ///
    /// The word it decodes is the last one that any clone of the cell
    /// stored, on whatever thread.
    pub fn load(&self) -> (value: T)
        ensures
            exists|bits: u64|
                self.offers(bits) && value == #[trigger] T::decoded(bits),
    {
        let bits = word_load(&self.word);
        let value = T::from_bits(bits);
        assert(value == T::decoded(bits));
        value
    }
}

impl Word {
    /// Another handle to the same word.
    fn share(&self) -> (other: Self)
        ensures
            other == *self,
    {
        Word { bits: self.bits.clone() }
    }
}

impl<T: GaugeValue> GaugeCell for Atomic<T> {
    type Value = T;

    fn store(&self, value: T)
        ensures
            self.offers(value.encoded()),
    {
        Atomic::store(self, value);
    }

    fn load(&self) -> (value: T)
        ensures
            exists|bits: u64|
                self.offers(bits) && value == #[trigger] T::decoded(bits),
    {
        Atomic::load(self)
    }
}

impl<T> Clone for Atomic<T> {
    fn clone(&self) -> (copy: Self)
        ensures
            copy == *self,
    {
        Atomic { word: self.word.share(), _value: PhantomData }
    }
}

impl<T> CheapClone for Atomic<T> {

}

impl<T: GaugeValue + Default> Default for Atomic<T> {
    fn default() -> (cell: Self)
        ensures
            exists|value: T| #[trigger]
                call_ensures(T::default, (), value) && cell.offers(value.encoded()),
    {
        let value = T::default();
        assert(call_ensures(T::default, (), value));
        Atomic::new(value)
    }
}

impl<T> PartialEq for Atomic<T> {
    fn eq(&self, other: &Self) -> (same: bool) {
        same_cell(&self.word.bits, &other.word.bits)
    }
}

impl<T> vstd::std_specs::cmp::PartialEqSpecImpl for Atomic<T> {
    open spec fn obeys_eq_spec() -> bool {
        true
    }

    open spec fn eq_spec(&self, other: &Self) -> bool {
        self.cell() == other.cell()
    }
}

impl<T> Eq for Atomic<T> {

}

/// Clones of a cell are the same cell, and what is put in through one is put
/// into all of them.
pub proof fn clones_share_the_cell<T>(cell: Atomic<T>, copy: Atomic<T>)
    requires
        copy == cell,
    ensures
        copy.cell() == cell.cell(),
        forall|bits: u64| copy.offers(bits) == cell.offers(bits),
{
}

/// What is decoded from the word that a store leaves in a cell is the value
/// that was stored.
pub proof fn a_stored_value_loads_back<T: GaugeValue>(value: T)
    ensures
        T::decoded(value.encoded()) == value,
{
    value.roundtrip();
}

/// Values that differ are stored as words that differ.
pub proof fn stored_words_tell_values_apart<T: GaugeValue>(a: T, b: T)
    requires
        a.encoded() == b.encoded(),
    ensures
        a == b,
{
    a.roundtrip();
    b.roundtrip();
}

} // verus!
