//! A counter stepping toward a target, shown in a terminal.

use crate::text::{decimal, fill3};
use vstd::prelude::*;

verus! {

/// A snapshot of the counter.
#[derive(Clone, Copy, Debug, PartialEq, Eq, Structural)]
pub struct CounterView {
    pub count: u32,
    pub target: u32,
    pub running: bool,
}

/// A counter stepping toward a target on its own clock.
#[derive(Clone, Copy, Debug, PartialEq, Eq, Structural)]
pub struct Counter {
    pub count: u32,
    pub target: u32,
    pub running: bool,
}

/// Where the counter starts over, unless told otherwise.
pub const TARGET: u32 = 30;

/// The counter after a step: a running one counts up by one, and starts over
/// behind the target.
pub open spec fn stepped(counter: Counter) -> Counter {
    if counter.running {
        Counter { count: ((counter.count + 1) % (counter.target + 1)) as u32, ..counter }
    } else {
        counter
    }
}

/// The counter paused if it was running, and resumed if it was paused.
pub open spec fn toggled(counter: Counter) -> Counter {
    Counter { running: !counter.running, ..counter }
}

impl Counter {
    /// A running counter at zero.
    pub fn new() -> (counter: Self)
        ensures
            counter == (Counter { count: 0, target: TARGET, running: true }),
    {
        Counter { count: 0, target: TARGET, running: true }
    }

    /// The counter's snapshot.
    pub fn view(&self) -> (view: CounterView)
        ensures
            view.count == self.count,
            view.target == self.target,
            view.running == self.running,
    {
        CounterView { count: self.count, target: self.target, running: self.running }
    }

    /// Counts up by one, or starts over behind the target; a paused counter
    /// stays.
    pub fn step(&mut self)
        requires
            old(self).running ==> old(self).count < u32::MAX && old(self).target < u32::MAX,
        ensures
            *final(self) == stepped(*old(self)),
    {
        if self.running {
            self.count = (self.count + 1) % (self.target + 1);
        }
    }

    /// Pauses or resumes.
    pub fn toggle(&mut self)
        ensures
            *final(self) == toggled(*old(self)),
    {
        self.running = !self.running;
    }

    /// Starts over.
    pub fn reset(&mut self)
        ensures
            *final(self) == (Counter { count: 0, ..*old(self) }),
    {
        self.count = 0;
    }
}

/// A counter within its target stays within it: it counts up one by one, and
/// starts over once it has reached the target.
pub proof fn a_counter_counts_to_its_target_and_starts_over(counter: Counter)
    requires
        counter.running,
        counter.count <= counter.target < u32::MAX,
    ensures
        stepped(counter).count <= counter.target,
        stepped(counter).count == if counter.count == counter.target {
            0
        } else {
            counter.count + 1
        },
{
    if counter.count < counter.target {
        vstd::arithmetic::div_mod::lemma_small_mod(
            (counter.count + 1) as nat,
            (counter.target + 1) as nat,
        );
    } else {
        vstd::arithmetic::div_mod::lemma_mod_self_0((counter.target + 1) as int);
    }
}

/// Two toggles leave the counter as it was.
pub proof fn toggling_twice_changes_nothing(counter: Counter)
    ensures
        toggled(toggled(counter)) == counter,
{
}

/// What a key does.
#[derive(Clone, Copy, Debug, PartialEq, Eq, Structural)]
pub enum KeyAction {
    Quit,
    Toggle,
    Reset,
    Ignore,
}

/// What the key of a character does.
pub open spec fn key_action(key: char) -> KeyAction {
    if key == 'q' {
        KeyAction::Quit
    } else if key == ' ' {
        KeyAction::Toggle
    } else if key == 'r' {
        KeyAction::Reset
    } else {
        KeyAction::Ignore
    }
}

/// Tells what the key of a character does.
pub fn read_key(key: char) -> (action: KeyAction)
    ensures
        action == key_action(key),
{
    if key == 'q' {
        KeyAction::Quit
    } else if key == ' ' {
        KeyAction::Toggle
    } else if key == 'r' {
        KeyAction::Reset
    } else {
        KeyAction::Ignore
    }
}

pub const HEADER: &'static str = "counter: $0 / $1 ($2)";

pub const RUNNING: &'static str = "running";

pub const PAUSED: &'static str = "paused";

/// The line above the gauge.
pub open spec fn header(view: CounterView) -> Seq<char> {
    crate::text::filled(
        HEADER@,
        seq![
            crate::text::digits(view.count as nat),
            crate::text::digits(view.target as nat),
            if view.running {
                RUNNING@
            } else {
                PAUSED@
            },
        ],
    )
}

/// Writes the line above the gauge.
pub fn render_header(view: &CounterView) -> (text: String)
    ensures
        text@ == header(*view),
{
    fill3(
        HEADER,
        decimal(view.count as u64).as_str(),
        decimal(view.target as u64).as_str(),
        if view.running {
            RUNNING
        } else {
            PAUSED
        },
    )
}

/// Each action has one key, and every other key is ignored.
pub proof fn each_action_has_one_key(key: char)
    ensures
        key_action(key) == KeyAction::Quit <==> key == 'q',
        key_action(key) == KeyAction::Toggle <==> key == ' ',
        key_action(key) == KeyAction::Reset <==> key == 'r',
{
}

/// A paused counter stays where it is, and a toggle changes nothing but
/// whether it runs.
pub proof fn a_paused_counter_stays(counter: Counter)
    ensures
        !counter.running ==> stepped(counter) == counter,
        toggled(counter).running != counter.running,
        toggled(counter).count == counter.count,
        toggled(counter).target == counter.target,
        stepped(counter).target == counter.target,
        stepped(counter).running == counter.running,
{
}

/// The header tells the count, the target and whether the counter runs.
pub proof fn the_header_tells_the_count(view: CounterView)
    ensures
        header(view) == "counter: "@ + crate::text::digits(view.count as nat) + " / "@
            + crate::text::digits(view.target as nat) + " ("@ + (if view.running {
            "running"@
        } else {
            "paused"@
        }) + ")"@,
{
    reveal_strlit("counter: $0 / $1 ($2)");
    reveal_strlit("counter: ");
    reveal_strlit(" / ");
    reveal_strlit(" (");
    reveal_strlit(")");
    let a = "counter: "@;
    let b = " / "@;
    let c = " ("@;
    let d = ")"@;
    assert(HEADER@ =~= a + crate::text::hole(0) + b + crate::text::hole(1) + c + crate::text::hole(
        2,
    ) + d);
    let args = seq![
        crate::text::digits(view.count as nat),
        crate::text::digits(view.target as nat),
        if view.running {
            RUNNING@
        } else {
            PAUSED@
        },
    ];
    crate::text::lemma_fills3(a, 0, b, 1, c, 2, d, args);
}

} // verus!
