use rillet_core::cancellation::{CancelStep, CancellationToken, CancelledFuture, TokenTable};

/// Polls until the future is complete, blocking on its registration.
fn complete(future: &mut CancelledFuture, token: &CancellationToken) {
    loop {
        match future.poll_step(token) {
            CancelStep::Ready => return,
            CancelStep::Registered => {}
            CancelStep::Wait => {
                if let Some(listener) = future.listener.take() {
                    futures_lite::future::block_on(listener.into_inner());
                }
                future.fired();
            }
        }
    }
}

#[test]
fn completes_immediately_when_already_cancelled() {
    let mut token = CancellationToken::new();
    token.cancel();
    complete(&mut token.cancelled(), &token);
    assert!(token.is_cancelled());
}

#[test]
fn a_wait_registers_once_and_completes_after_the_wake() {
    let mut token = CancellationToken::default();
    let mut future = token.cancelled();
    assert!(!token.is_cancelled());
    assert_eq!(future.poll_step(&token), CancelStep::Registered);
    assert_eq!(future.poll_step(&token), CancelStep::Wait);
    token.cancel();
    assert_eq!(future.poll_step(&token), CancelStep::Ready);
    assert!(future.listener.is_none());
}

#[test]
fn cancelling_fires_the_registration() {
    let mut token = CancellationToken::new();
    let mut future = token.cancelled();
    assert_eq!(future.poll_step(&token), CancelStep::Registered);
    token.cancel();
    let listener = future.listener.take().unwrap();
    futures_lite::future::block_on(listener.into_inner());
    future.fired();
    complete(&mut future, &token);
}

#[test]
fn clones_and_children_share_the_token() {
    let mut table = TokenTable::new();
    let token = table.share(CancellationToken::new());
    let other = table.share(CancellationToken::new());
    let copy = token.clone();
    let child = copy.child_token();
    assert!(!token.is_cancelled(&table) && !child.is_cancelled(&table));

    child.cancel(&mut table);
    assert!(token.is_cancelled(&table));
    assert!(copy.is_cancelled(&table));
    assert!(child.is_cancelled(&table));
    assert!(!other.is_cancelled(&table));
}
