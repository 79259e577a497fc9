//! A counter with a status line, shown in a window.

use crate::text::{fill1, signed_decimal};
use smol_str::SmolStr;
use vstd::prelude::*;

verus! {

/// A snapshot of the counter.
#[derive(Clone, Copy, Debug, PartialEq, Eq, Structural)]
pub struct CounterView {
    pub value: i64,
}

/// A counter mutated from the window.
#[derive(Clone, Copy, Debug, PartialEq, Eq, Structural)]
pub struct Counter {
    pub value: i64,
}

impl Counter {
    /// A counter at zero.
    pub fn new() -> (counter: Self)
        ensures
            counter.value == 0,
    {
        Counter { value: 0 }
    }

    /// The counter's snapshot.
    pub fn view(&self) -> (view: CounterView)
        ensures
            view.value == self.value,
    {
        CounterView { value: self.value }
    }

    /// Moves the counter.
    pub fn add(&mut self, delta: i64)
        requires
            i64::MIN <= old(self).value + delta <= i64::MAX,
        ensures
            final(self).value == old(self).value + delta,
    {
        self.value = self.value + delta;
    }
}

pub const STATUS: &'static str = "counter is $0";

/// The text that a string of `smol_str` holds.
pub uninterp spec fn held(text: SmolStr) -> Seq<char>;

/// `smol_str::SmolStr::new`: a string that holds the given text.
#[verifier::external_body]
fn smol_str_new(text: &str) -> (held_text: SmolStr)
    ensures
        held(held_text) == text@,
{
    SmolStr::new(text)
}

/// `smol_str::SmolStr::clone`: the clone holds the same text.
#[verifier::external_body]
fn smol_str_clone(text: &SmolStr) -> (copy: SmolStr)
    ensures
        held(copy) == held(*text),
{
    text.clone()
}

/// A snapshot of the status line.
pub struct StatusView {
    pub message: SmolStr,
}

/// A status line derived from the counter's views.
pub struct Status {
    pub message: SmolStr,
}

/// The status line for a view of the counter.
pub open spec fn status_line(view: CounterView) -> Seq<char> {
    crate::text::filled(STATUS@, seq![crate::text::signed_digits(view.value as int)])
}

impl Status {
    /// An empty status line.
    pub fn new() -> (status: Self)
        ensures
            held(status.message) == Seq::<char>::empty(),
    {
        proof {
            reveal_strlit("");
        }
        Status { message: smol_str_new("") }
    }

    /// The status line's snapshot.
    pub fn view(&self) -> (view: StatusView)
        ensures
            held(view.message) == held(self.message),
    {
        StatusView { message: smol_str_clone(&self.message) }
    }

    /// Follows the counter.
    pub fn on_counter_view(&mut self, view: &CounterView)
        ensures
            held(final(self).message) == status_line(*view),
    {
        let text = fill1(STATUS, signed_decimal(view.value).as_str());
        self.message = smol_str_new(text.as_str());
    }
}

/// The status line tells the counter's value.
pub proof fn the_status_line_tells_the_value(view: CounterView)
    ensures
        status_line(view) == "counter is "@ + crate::text::signed_digits(view.value as int),
{
    reveal_strlit("counter is $0");
    reveal_strlit("counter is ");
    let text = "counter is "@;
    let end = Seq::<char>::empty();
    let value = crate::text::signed_digits(view.value as int);
    assert(STATUS@ =~= text + crate::text::hole(0) + end);
    crate::text::lemma_fills1(text, 0, end, seq![value]);
    assert(text + value + end =~= text + value);
}

} // verus!
