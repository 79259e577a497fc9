//! Cooperative cancellation of tasks.

use crate::shared::{Listener, Wake};
use vstd::prelude::*;

verus! {

/// A token for cooperative cancellation of tasks.
///
/// When `cancel()` is called, all tasks waiting for it are woken.
pub struct CancellationToken {
    cancelled: bool,
    wake: Wake<()>,
}

impl CancellationToken {
    /// Whether cancellation has been triggered.
    pub closed spec fn triggered(&self) -> bool {
        self.cancelled
    }

    /// The waiters that a cancellation wakes.
    pub closed spec fn waiters(&self) -> Wake<()> {
        self.wake
    }

    /// Creates a new cancellation token.
    pub fn new() -> (token: Self)
        ensures
            !token.triggered(),
    {
        CancellationToken { cancelled: false, wake: Wake::new() }
    }

    /// Triggers cancellation.
    ///
    /// All futures returned by `cancelled()` will complete.
    pub fn cancel(&mut self)
        ensures
            final(self).triggered(),
            final(self).waiters().woken(old(self).waiters()),
    {
        self.cancelled = true;
        self.wake.notify_all();
    }

    /// Returns true if cancellation has been triggered.
    pub fn is_cancelled(&self) -> (cancelled: bool)
        ensures
            cancelled == self.triggered(),
    {
        self.cancelled
    }

    /// Returns the state of a future that completes when cancellation is
    /// triggered.
    pub fn cancelled(&self) -> (future: CancelledFuture)
        ensures
            !future.registered(),
    {
        CancelledFuture { listener: None }
    }
}

impl Default for CancellationToken {
    fn default() -> (token: Self)
        ensures
            !token.triggered(),
    {
        CancellationToken::new()
    }
}

/// The state of a future that completes when a cancellation token is
/// triggered.
///
/// Dropping it deregisters its wait.
pub struct CancelledFuture {
    /// The registration that wakes the task.
    pub listener: Option<Listener>,
}

/// What the task that polls does next.
#[derive(Clone, Copy, Debug, PartialEq, Eq, Structural)]
pub enum CancelStep {
    /// The future is complete.
    Ready,
    /// It has just registered: look at the token again.
    Registered,
    /// Poll the registration: look at the token again once it has fired, and
    /// return pending until then.
    Wait,
}

impl CancelledFuture {
    /// Whether the future is registered with its token.
    pub open spec fn registered(&self) -> bool {
        self.listener is Some
    }

    /// One step of a poll.
    ///
    /// A wake sent before the registration is not delivered to it, so the
    /// token is looked at again after registering.
    pub fn poll_step(&mut self, token: &CancellationToken) -> (step: CancelStep)
        ensures
            step == if token.triggered() {
                CancelStep::Ready
            } else if old(self).registered() {
                CancelStep::Wait
            } else {
                CancelStep::Registered
            },
            final(self).registered() == !token.triggered(),
            step == CancelStep::Registered ==> final(self).listener->0.list()
                == token.waiters().list(),
            step == CancelStep::Wait ==> final(self).listener == old(self).listener,
    {
        if token.cancelled {
            self.listener = None;
            return CancelStep::Ready;
        }
        if self.listener.is_some() {
            return CancelStep::Wait;
        }
        self.listener = Some(token.wake.listen());
        CancelStep::Registered
    }

    /// Notes that the registration has fired.
    pub fn fired(&mut self)
        ensures
            !final(self).registered(),
    {
        self.listener = None;
    }
}

/// The cancellation tokens of a program, each shared by any number of
/// clones.
pub struct TokenTable {
    tokens: Vec<CancellationToken>,
}

/// A clone of a token in a table.
///
/// Clone it to share the token across tasks.
#[derive(Clone, Copy)]
pub struct SharedToken {
    id: usize,
}

/// Whether tokens differ by one being cancelled: it is triggered and its
/// waiters are woken.
pub open spec fn cancels(
    before: Seq<CancellationToken>,
    after: Seq<CancellationToken>,
    id: int,
) -> bool {
    &&& after.len() == before.len()
    &&& after[id].triggered()
    &&& after[id].waiters().woken(before[id].waiters())
    &&& forall|i: int| 0 <= i < before.len() && i != id ==> #[trigger] after[i] == before[i]
}

impl TokenTable {
    /// The tokens.
    pub closed spec fn tokens(&self) -> Seq<CancellationToken> {
        self.tokens@
    }

    /// Creates a table without tokens.
    pub fn new() -> (table: Self)
        ensures
            table.tokens() == Seq::<CancellationToken>::empty(),
    {
        TokenTable { tokens: Vec::new() }
    }

    /// Adds a token, to be shared.
    pub fn share(&mut self, token: CancellationToken) -> (shared: SharedToken)
        ensures
            final(self).tokens() == old(self).tokens().push(token),
            shared.id() == old(self).tokens().len(),
    {
        let id: usize = self.tokens.len();
        self.tokens.push(token);
        SharedToken { id }
    }
}

impl SharedToken {
    /// The number of the token that clones share.
    pub closed spec fn id(&self) -> int {
        self.id as int
    }

    /// Triggers cancellation of the token, for every clone of it.
    pub fn cancel(&self, table: &mut TokenTable)
        requires
            self.id() < old(table).tokens().len(),
        ensures
            cancels(old(table).tokens(), final(table).tokens(), self.id()),
    {
        table.tokens[self.id].cancel();
    }

    /// Returns true if cancellation has been triggered through any clone.
    pub fn is_cancelled(&self, table: &TokenTable) -> (cancelled: bool)
        requires
            self.id() < table.tokens().len(),
        ensures
            cancelled == table.tokens()[self.id()].triggered(),
    {
        table.tokens[self.id].is_cancelled()
    }

    /// Returns a clone of this token; cancelling either cancels both.
    pub fn child_token(&self) -> (child: Self)
        ensures
            child == *self,
    {
        *self
    }
}

/// Cancelling a token is seen through every clone and child of it, and
/// through no other token. No cancellation is ever undone.
pub proof fn cancelling_either_cancels_both(
    before: Seq<CancellationToken>,
    after: Seq<CancellationToken>,
    token: SharedToken,
    other: SharedToken,
)
    requires
        cancels(before, after, token.id()),
        other.id() < before.len(),
    ensures
        other == token ==> after[other.id()].triggered(),
        other != token ==> after[other.id()] == before[other.id()],
        before[other.id()].triggered() ==> after[other.id()].triggered(),
{
}

/// A cancellation wakes the waiters of its token once.
pub proof fn a_cancellation_wakes_its_waiters(
    before: Seq<CancellationToken>,
    after: Seq<CancellationToken>,
    token: SharedToken,
)
    requires
        cancels(before, after, token.id()),
    ensures
        after.len() == before.len(),
        after[token.id()].waiters().list() == before[token.id()].waiters().list(),
        after[token.id()].waiters().done().len() == before[token.id()].waiters().done().len() + 1,
{
}

} // verus!
