//! What holds of the spawn methods of every service.

use crate::macros::commands::{CommandView, NamesView, USIZE};
use crate::macros::spawn::{
    BUILDER_FIELD, BUILDER_NAME, BUILDER_SPAWN_METHOD, COMMAND_FUTURE, COMMAND_LOOP, CONTEXT_ARG,
    CONTEXT_NONE, CONTEXT_TASK, EMPTY, EVENT_ARM, EVENT_FUTURE, EVENT_SETUP, EXIT_CHECK,
    EventHandlerView, HANDLE_TASK, IDLE_LOOP, INPUT_LOOP, NO_TASK_SETUP, RUN_COMMAND,
    SERVICE_SPAWN_METHOD, SPAWN_BUILDER, SPAWN_CORE, SPAWN_EXPIRY, SPAWN_SIMPLE, STOP_EXPIRY,
    TASK_SETUP, TaskView, WATCH_ARM, WATCH_FUTURE, WATCH_SETUP, WatchHandlerView,
};
use vstd::prelude::*;

verus! {

/// The service loop's text stands in the task that is spawned for it.
proof fn lemma_core_body(names: NamesView, commands: Seq<CommandView>, setup: Seq<char>, body: Seq<char>)
    ensures
        crate::text::holds(crate::macros::spawn::spawn_core(names, commands, setup, body), body),
{
    let args = seq![
        names.service,
        names.handle,
        names.command,
        crate::macros::commands::usize_literal(commands.len()),
        setup,
        body,
        if crate::macros::spawn::has_ops(commands) { SPAWN_EXPIRY@ } else { EMPTY@ },
        if crate::macros::spawn::has_ops(commands) { STOP_EXPIRY@ } else { EMPTY@ },
    ];
    lemma_text_spawn_core(args);
    let stop = args[7];
    assert("spawner.spawn(async move {
                "@ + body + "
                "@ + stop + "
            });"@ =~= "spawner.spawn(async move {
                "@ + body + ("
                "@ + stop + "
            });"@));
    crate::text::lemma_holds_middle("spawner.spawn(async move {
                "@, body, "
                "@ + stop + "
            });"@);
    crate::text::lemma_holds_through(
        crate::macros::spawn::spawn_core(names, commands, setup, body),
        "spawner.spawn(async move {
                "@
            + body
            + "
                "@
            + stop
            + "
            });"@,
        body,
    );
}

/// The handlers' subscriptions stand in front of the service loop.
proof fn lemma_core_setup(names: NamesView, commands: Seq<CommandView>, setup: Seq<char>, body: Seq<char>)
    ensures
        crate::text::holds(crate::macros::spawn::spawn_core(names, commands, setup, body), setup),
{
    let args = seq![
        names.service,
        names.handle,
        names.command,
        crate::macros::commands::usize_literal(commands.len()),
        setup,
        body,
        if crate::macros::spawn::has_ops(commands) { SPAWN_EXPIRY@ } else { EMPTY@ },
        if crate::macros::spawn::has_ops(commands) { STOP_EXPIRY@ } else { EMPTY@ },
    ];
    lemma_text_spawn_core(args);
    crate::text::lemma_holds_middle("self.__rillet_gauges();

        "@, setup, "

        let cancel_token"@);
    crate::text::lemma_holds_through(
        crate::macros::spawn::spawn_core(names, commands, setup, body),
        "self.__rillet_gauges();

        "@
            + setup
            + "

        let cancel_token"@,
        setup,
    );
}

/// What the spawn function, its setup or its loop holds, the whole text holds.
proof fn lemma_in_impl(
    names: NamesView,
    commands: Seq<CommandView>,
    events: Seq<EventHandlerView>,
    watches: Seq<WatchHandlerView>,
    tasks: Seq<TaskView>,
    part: Seq<char>,
)
    requires
        crate::text::holds(crate::macros::spawn::service_loop(commands.len() > 0, events, watches), part) || crate::text::holds(crate::macros::spawn::receiver_setup(events, watches), part) || crate::text::holds(crate::macros::spawn::spawn_core(names, commands, crate::macros::spawn::receiver_setup(events, watches), crate::macros::spawn::service_loop(commands.len() > 0, events, watches)), part),
    ensures
        crate::text::holds(
            crate::macros::spawn::spawn_impl(names, commands, events, watches, tasks),
            part,
        ),
{
    let setup = crate::macros::spawn::receiver_setup(events, watches);
    let body = crate::macros::spawn::service_loop(commands.len() > 0, events, watches);
    let core = crate::macros::spawn::spawn_core(names, commands, setup, body);
    lemma_core_body(names, commands, setup, body);
    lemma_core_setup(names, commands, setup, body);
    if crate::text::holds(body, part) {
        crate::text::lemma_holds_through(core, body, part);
    } else if crate::text::holds(setup, part) {
        crate::text::lemma_holds_through(core, setup, part);
    }
    let rest = crate::macros::spawn::spawn_impl(names, commands, events, watches, tasks).skip(core.len() as int);
    assert(crate::macros::spawn::spawn_impl(names, commands, events, watches, tasks) =~= core
        + rest);
    crate::text::lemma_holds_ends(core, rest);
    crate::text::lemma_holds_through(
        crate::macros::spawn::spawn_impl(names, commands, events, watches, tasks),
        core,
        part,
    );
}

/// Where a service has commands, its loop runs each command it receives: the
/// arm on the command channel executes the command under the write lock,
/// publishes the view and concludes operations before the lock is released,
/// and counts the command. Where the channel is closed, the arm closes the
/// commands and checks for the loop's exit.
pub proof fn law_received_commands_run(
    names: NamesView,
    commands: Seq<CommandView>,
    events: Seq<EventHandlerView>,
    watches: Seq<WatchHandlerView>,
    tasks: Seq<TaskView>,
)
    requires
        commands.len() > 0,
    ensures
        crate::text::holds(
            crate::macros::spawn::spawn_impl(names, commands, events, watches, tasks),
            "result = cmd_fut => {
            match result {
                Ok(cmd) => {
                    "@
                + "let cmd_idx = cmd.index();
{
    let mut s = state.write().unwrap();
    cmd.execute(&mut s);
    s.__rillet_publish_view();
    s.__rillet_ops.flush_conclusions();

    s.__rillet_sampling_state.inc_command();
    if s.__rillet_sampling_state.should_sample() {
        metrics.record_sample();
        s.__rillet_sampling_state.reset();
    }
}
metrics.inc_processed(cmd_idx);
"@
                + "
                }
                Err(_) => {
                    __flow.close_commands();
                    "@
                + "if __flow.exits(|| state.read().unwrap().__rillet_has_observers()) {
    break;
}
"@
                + "
                }
            }
        }
        "@,
        ),
{
    let args = seq![
        crate::macros::commands::usize_literal(events.len()),
        crate::macros::spawn::truth(watches.len() > 0),
        crate::macros::spawn::input_futures(events, watches),
        COMMAND_FUTURE@,
        RUN_COMMAND@,
        EXIT_CHECK@,
        crate::macros::spawn::input_arms(events, watches),
    ];
    lemma_text_command_loop(args);
    let part = "result = cmd_fut => {
            match result {
                Ok(cmd) => {
                    "@ + RUN_COMMAND@ + "
                }
                Err(_) => {
                    __flow.close_commands();
                    "@ + EXIT_CHECK@ + "
                }
            }
        }
        "@;
    lemma_in_impl(names, commands, events, watches, tasks, part);
}

/// Where a service has commands, its cancelled loop runs each command that is
/// still queued in the same way, and only then stops.
pub proof fn law_queued_commands_drain(
    names: NamesView,
    commands: Seq<CommandView>,
    events: Seq<EventHandlerView>,
    watches: Seq<WatchHandlerView>,
    tasks: Seq<TaskView>,
)
    requires
        commands.len() > 0,
    ensures
        crate::text::holds(
            crate::macros::spawn::spawn_impl(names, commands, events, watches, tasks),
            "_ = cancel_fut => {
            // Drain remaining commands before exit
            while let Ok(cmd) = cmd_rx.try_recv() {
                "@
                + "let cmd_idx = cmd.index();
{
    let mut s = state.write().unwrap();
    cmd.execute(&mut s);
    s.__rillet_publish_view();
    s.__rillet_ops.flush_conclusions();

    s.__rillet_sampling_state.inc_command();
    if s.__rillet_sampling_state.should_sample() {
        metrics.record_sample();
        s.__rillet_sampling_state.reset();
    }
}
metrics.inc_processed(cmd_idx);
"@
                + "
            }
            break;
        }
        "@,
        ),
{
    let args = seq![
        crate::macros::commands::usize_literal(events.len()),
        crate::macros::spawn::truth(watches.len() > 0),
        crate::macros::spawn::input_futures(events, watches),
        COMMAND_FUTURE@,
        RUN_COMMAND@,
        EXIT_CHECK@,
        crate::macros::spawn::input_arms(events, watches),
    ];
    lemma_text_command_loop(args);
    let part = "_ = cancel_fut => {
            // Drain remaining commands before exit
            while let Ok(cmd) = cmd_rx.try_recv() {
                "@ + RUN_COMMAND@ + "
            }
            break;
        }
        "@;
    lemma_in_impl(names, commands, events, watches, tasks, part);
}

/// Where a service has commands, each pass of its loop polls the token and the
/// command channel, whose future is remade from the open channel.
pub proof fn law_commands_are_polled(
    names: NamesView,
    commands: Seq<CommandView>,
    events: Seq<EventHandlerView>,
    watches: Seq<WatchHandlerView>,
    tasks: Seq<TaskView>,
)
    requires
        commands.len() > 0,
    ensures
        crate::text::holds(
            crate::macros::spawn::spawn_impl(names, commands, events, watches, tasks),
            "let mut cancel_fut = std::pin::pin!(cancel_token.cancelled().fuse());
    "@
                + "let cmd_closed = !__flow.commands_open();
let mut cmd_fut = std::pin::pin!(
    async {
        if cmd_closed {
            std::future::pending().await
        } else {
            cmd_rx.recv().await
        }
    }
    .fuse()
);
"@
                + "

    rillet::runtime::futures::select! {"@,
        ),
{
    let args = seq![
        crate::macros::commands::usize_literal(events.len()),
        crate::macros::spawn::truth(watches.len() > 0),
        crate::macros::spawn::input_futures(events, watches),
        COMMAND_FUTURE@,
        RUN_COMMAND@,
        EXIT_CHECK@,
        crate::macros::spawn::input_arms(events, watches),
    ];
    lemma_text_command_loop(args);
    let part = "let mut cancel_fut = std::pin::pin!(cancel_token.cancelled().fuse());
    "@ + COMMAND_FUTURE@ + "

    rillet::runtime::futures::select! {"@;
    lemma_in_impl(names, commands, events, watches, tasks, part);
}

/// A service without commands that handles events or views has a loop that
/// stops when cancelled, polls the channel of no commands, and treats it as
/// closed once its handles are gone.
pub proof fn law_input_loop_closes_commands(
    names: NamesView,
    commands: Seq<CommandView>,
    events: Seq<EventHandlerView>,
    watches: Seq<WatchHandlerView>,
    tasks: Seq<TaskView>,
)
    requires
        commands.len() == 0,
        events.len() > 0 || watches.len() > 0,
    ensures
        crate::text::holds(
            crate::macros::spawn::spawn_impl(names, commands, events, watches, tasks),
            "let mut cancel_fut = std::pin::pin!(cancel_token.cancelled().fuse());
    "@
                + "let cmd_closed = !__flow.commands_open();
let mut cmd_fut = std::pin::pin!(
    async {
        if cmd_closed {
            std::future::pending().await
        } else {
            cmd_rx.recv().await
        }
    }
    .fuse()
);
"@
                + "

    rillet::runtime::futures::select! {
        _ = cancel_fut => break,
        result = cmd_fut => {
            if result.is_err() {
                __flow.close_commands();
                "@
                + "if __flow.exits(|| state.read().unwrap().__rillet_has_observers()) {
    break;
}
"@
                + "
            }
        }
        "@,
        ),
{
    let args = seq![
        crate::macros::commands::usize_literal(events.len()),
        crate::macros::spawn::truth(watches.len() > 0),
        crate::macros::spawn::input_futures(events, watches),
        COMMAND_FUTURE@,
        RUN_COMMAND@,
        EXIT_CHECK@,
        crate::macros::spawn::input_arms(events, watches),
    ];
    lemma_text_input_loop(args);
    let part = "let mut cancel_fut = std::pin::pin!(cancel_token.cancelled().fuse());
    "@ + COMMAND_FUTURE@ + "

    rillet::runtime::futures::select! {
        _ = cancel_fut => break,
        result = cmd_fut => {
            if result.is_err() {
                __flow.close_commands();
                "@ + EXIT_CHECK@ + "
            }
        }
        "@;
    lemma_in_impl(names, commands, events, watches, tasks, part);
}

/// A service without inputs waits until it is cancelled or its handles are gone.
pub proof fn law_idle_loop_waits(
    names: NamesView,
    commands: Seq<CommandView>,
    events: Seq<EventHandlerView>,
    watches: Seq<WatchHandlerView>,
    tasks: Seq<TaskView>,
)
    requires
        commands.len() == 0,
        events.len() == 0,
        watches.len() == 0,
    ensures
        crate::text::holds(
            crate::macros::spawn::spawn_impl(names, commands, events, watches, tasks),
            "let _state = state_clone;
use rillet::runtime::FutureExt;

let mut cancel_fut = std::pin::pin!(cancel_token.cancelled().fuse());
let mut closed_fut = std::pin::pin!(
    async {
        while cmd_rx.recv().await.is_ok() {}
    }
    .fuse()
);

rillet::runtime::futures::select! {
    _ = cancel_fut => {}
    _ = closed_fut => {}
}
"@,
        ),
{
    let part = IDLE_LOOP@;
    crate::text::lemma_holds_ends(part, seq![]);
    lemma_in_impl(names, commands, events, watches, tasks, part);
}

/// A `usize` literal is the number and its suffix.
proof fn lemma_usize_literal(n: nat)
    ensures
        crate::macros::commands::usize_literal(n) == crate::text::digits(n) + "usize"@,
{
    let args = seq![crate::text::digits(n)];
    lemma_text_usize(args);
}

/// What the handlers' arms hold, the whole text holds.
proof fn lemma_arms_in_impl(
    names: NamesView,
    commands: Seq<CommandView>,
    events: Seq<EventHandlerView>,
    watches: Seq<WatchHandlerView>,
    tasks: Seq<TaskView>,
    part: Seq<char>,
)
    requires
        events.len() > 0 || watches.len() > 0,
        crate::text::holds(crate::macros::spawn::input_arms(events, watches), part),
    ensures
        crate::text::holds(
            crate::macros::spawn::spawn_impl(names, commands, events, watches, tasks),
            part,
        ),
{
    let args = seq![
        crate::macros::commands::usize_literal(events.len()),
        crate::macros::spawn::truth(watches.len() > 0),
        crate::macros::spawn::input_futures(events, watches),
        COMMAND_FUTURE@,
        RUN_COMMAND@,
        EXIT_CHECK@,
        crate::macros::spawn::input_arms(events, watches),
    ];
    let inner = args[6];
    if commands.len() > 0 {
        lemma_text_command_loop(args);
    } else {
        lemma_text_input_loop(args);
    }
    crate::text::lemma_holds_middle("        }
        "@, inner, "
    }
"@);
    crate::text::lemma_holds_through(
        crate::macros::spawn::service_loop(commands.len() > 0, events, watches),
        "        }
        "@
            + inner
            + "
    }
"@,
        inner,
    );
    crate::text::lemma_holds_through(
        crate::macros::spawn::service_loop(commands.len() > 0, events, watches),
        inner,
        part,
    );
    lemma_in_impl(names, commands, events, watches, tasks, part);
}

/// What the handlers' futures hold, the whole text holds.
proof fn lemma_futures_in_impl(
    names: NamesView,
    commands: Seq<CommandView>,
    events: Seq<EventHandlerView>,
    watches: Seq<WatchHandlerView>,
    tasks: Seq<TaskView>,
    part: Seq<char>,
)
    requires
        events.len() > 0 || watches.len() > 0,
        crate::text::holds(crate::macros::spawn::input_futures(events, watches), part),
    ensures
        crate::text::holds(
            crate::macros::spawn::spawn_impl(names, commands, events, watches, tasks),
            part,
        ),
{
    let args = seq![
        crate::macros::commands::usize_literal(events.len()),
        crate::macros::spawn::truth(watches.len() > 0),
        crate::macros::spawn::input_futures(events, watches),
        COMMAND_FUTURE@,
        RUN_COMMAND@,
        EXIT_CHECK@,
        crate::macros::spawn::input_arms(events, watches),
    ];
    let inner = args[2];
    if commands.len() > 0 {
        lemma_text_command_loop(args);
    } else {
        lemma_text_input_loop(args);
    }
    crate::text::lemma_holds_middle("    use rillet::runtime::FutureExt;

    "@, inner, "

"@);
    crate::text::lemma_holds_through(
        crate::macros::spawn::service_loop(commands.len() > 0, events, watches),
        "    use rillet::runtime::FutureExt;

    "@
            + inner
            + "

"@,
        inner,
    );
    crate::text::lemma_holds_through(
        crate::macros::spawn::service_loop(commands.len() > 0, events, watches),
        inner,
        part,
    );
    lemma_in_impl(names, commands, events, watches, tasks, part);
}

/// For every event handler the loop selects over the handler's future in an
/// arm of its own: an event runs the handler's method with it under the write
/// lock, and the view is published before the lock is released; the end of
/// the source closes this source and no other. Both check for the loop's
/// exit.
pub proof fn law_every_event_has_an_arm(
    names: NamesView,
    commands: Seq<CommandView>,
    events: Seq<EventHandlerView>,
    watches: Seq<WatchHandlerView>,
    tasks: Seq<TaskView>,
    i: int,
)
    requires
        0 <= i < events.len(),
    ensures
        crate::text::holds(
            crate::macros::spawn::spawn_impl(names, commands, events, watches, tasks),
            "result = "@
                + crate::macros::case::fragment(events[i].method_name)
                + "_rx_fut => {
    match result {
        Some(event) => {
            {
                let mut s = state.write().unwrap();
                s."@
                + events[i].method_name
                + "(event);
                s.__rillet_publish_view();
                s.__rillet_ops.flush_conclusions();
            }
            "@
                + "if __flow.exits(|| state.read().unwrap().__rillet_has_observers()) {
    break;
}
"@
                + "
        }
        None => {
            __flow.close_source("@
                + crate::text::digits(i as nat)
                + "usize"@
                + ");
            "@
                + "if __flow.exits(|| state.read().unwrap().__rillet_has_observers()) {
    break;
}
"@
                + "
        }
    }
}
"@,
        ),
{
    let h = events[i];
    let args = seq![
        crate::macros::case::fragment(h.method_name),
        h.method_name,
        crate::macros::commands::usize_literal(i as nat),
        EXIT_CHECK@,
    ];
    lemma_usize_literal(i as nat);
    lemma_text_event_arm(args);
    let part = "result = "@ + crate::macros::case::fragment(events[i].method_name) + "_rx_fut => {
    match result {
        Some(event) => {
            {
                let mut s = state.write().unwrap();
                s."@ + events[i].method_name + "(event);
                s.__rillet_publish_view();
                s.__rillet_ops.flush_conclusions();
            }
            "@ + EXIT_CHECK@ + "
        }
        None => {
            __flow.close_source("@ + crate::text::digits(i as nat) + "usize"@ + ");
            "@ + EXIT_CHECK@ + "
        }
    }
}
"@;
    assert(crate::macros::spawn::event_arm(i, h) == part);
    let parts = events.map(|i: int, h: EventHandlerView| crate::macros::spawn::event_arm(i, h));
    crate::text::lemma_concat_holds(parts, i);
    let all = crate::text::concat(events.map(|i: int, h: EventHandlerView| crate::macros::spawn::event_arm(i, h)));
    let more = crate::text::concat(watches.map_values(|h: WatchHandlerView| crate::macros::spawn::watch_arm(h)));
    crate::text::lemma_holds_ends(all, more);
    crate::text::lemma_holds_through(all + more, all, parts[i]);
    lemma_arms_in_impl(names, commands, events, watches, tasks, part);
}

/// For every watch handler the loop selects over the handler's future in an
/// arm of its own: a view runs the handler's method with it under the write
/// lock, and the service's own view is published before the lock is released.
pub proof fn law_every_watch_has_an_arm(
    names: NamesView,
    commands: Seq<CommandView>,
    events: Seq<EventHandlerView>,
    watches: Seq<WatchHandlerView>,
    tasks: Seq<TaskView>,
    i: int,
)
    requires
        0 <= i < watches.len(),
    ensures
        crate::text::holds(
            crate::macros::spawn::spawn_impl(names, commands, events, watches, tasks),
            "view = "@
                + crate::macros::case::fragment(watches[i].method_name)
                + "_rx_fut => {
    {
        let mut s = state.write().unwrap();
        s."@
                + watches[i].method_name
                + "(view);
        s.__rillet_publish_view();
        s.__rillet_ops.flush_conclusions();
    }
    "@
                + "if __flow.exits(|| state.read().unwrap().__rillet_has_observers()) {
    break;
}
"@
                + "
}
"@,
        ),
{
    let h = watches[i];
    let args = seq![crate::macros::case::fragment(h.method_name), h.method_name, EXIT_CHECK@];
    lemma_text_watch_arm(args);
    let part = "view = "@ + crate::macros::case::fragment(watches[i].method_name) + "_rx_fut => {
    {
        let mut s = state.write().unwrap();
        s."@ + watches[i].method_name + "(view);
        s.__rillet_publish_view();
        s.__rillet_ops.flush_conclusions();
    }
    "@ + EXIT_CHECK@ + "
}
"@;
    assert(crate::macros::spawn::watch_arm(h) == part);
    let parts = watches.map_values(|h: WatchHandlerView| crate::macros::spawn::watch_arm(h));
    crate::text::lemma_concat_holds(parts, i);
    let all = crate::text::concat(events.map(|i: int, h: EventHandlerView| crate::macros::spawn::event_arm(i, h)));
    let more = crate::text::concat(watches.map_values(|h: WatchHandlerView| crate::macros::spawn::watch_arm(h)));
    crate::text::lemma_holds_ends(all, more);
    crate::text::lemma_holds_through(all + more, more, parts[i]);
    lemma_arms_in_impl(names, commands, events, watches, tasks, part);
}

/// For every event handler each pass of the loop polls the handler's receiver,
/// unless the source of the handler's own number is closed.
pub proof fn law_every_event_has_a_future(
    names: NamesView,
    commands: Seq<CommandView>,
    events: Seq<EventHandlerView>,
    watches: Seq<WatchHandlerView>,
    tasks: Seq<TaskView>,
    i: int,
)
    requires
        0 <= i < events.len(),
    ensures
        crate::text::holds(
            crate::macros::spawn::spawn_impl(names, commands, events, watches, tasks),
            "let "@
                + crate::macros::case::fragment(events[i].method_name)
                + "_closed = !__flow.source_open("@
                + crate::text::digits(i as nat)
                + "usize"@
                + ");
let mut "@
                + crate::macros::case::fragment(events[i].method_name)
                + "_rx_fut = std::pin::pin!(
    async {
        if "@
                + crate::macros::case::fragment(events[i].method_name)
                + "_closed {
            std::future::pending().await
        } else {
            "@
                + crate::macros::case::fragment(events[i].method_name)
                + "_rx.next().await
        }
    }
    .fuse()
);
"@,
        ),
{
    let h = events[i];
    let args = seq![
        crate::macros::case::fragment(h.method_name),
        crate::macros::commands::usize_literal(i as nat),
    ];
    lemma_usize_literal(i as nat);
    lemma_text_event_future(args);
    let part = "let "@
        + crate::macros::case::fragment(events[i].method_name)
        + "_closed = !__flow.source_open("@
        + crate::text::digits(i as nat)
        + "usize"@
        + ");
let mut "@
        + crate::macros::case::fragment(events[i].method_name)
        + "_rx_fut = std::pin::pin!(
    async {
        if "@
        + crate::macros::case::fragment(events[i].method_name)
        + "_closed {
            std::future::pending().await
        } else {
            "@
        + crate::macros::case::fragment(events[i].method_name)
        + "_rx.next().await
        }
    }
    .fuse()
);
"@;
    assert(crate::macros::spawn::event_future(i, h) == part);
    let parts = events.map(|i: int, h: EventHandlerView| crate::macros::spawn::event_future(i, h));
    crate::text::lemma_concat_holds(parts, i);
    let all = crate::text::concat(events.map(|i: int, h: EventHandlerView| crate::macros::spawn::event_future(i, h)));
    let more = crate::text::concat(watches.map_values(|h: WatchHandlerView| crate::macros::spawn::watch_future(h)));
    crate::text::lemma_holds_ends(all, more);
    crate::text::lemma_holds_through(all + more, all, parts[i]);
    lemma_futures_in_impl(names, commands, events, watches, tasks, part);
}

/// For every watch handler each pass of the loop polls the handler's receiver.
pub proof fn law_every_watch_has_a_future(
    names: NamesView,
    commands: Seq<CommandView>,
    events: Seq<EventHandlerView>,
    watches: Seq<WatchHandlerView>,
    tasks: Seq<TaskView>,
    i: int,
)
    requires
        0 <= i < watches.len(),
    ensures
        crate::text::holds(
            crate::macros::spawn::spawn_impl(names, commands, events, watches, tasks),
            "let mut "@
                + crate::macros::case::fragment(watches[i].method_name)
                + "_rx_fut = std::pin::pin!("@
                + crate::macros::case::fragment(watches[i].method_name)
                + "_rx.changed().fuse());
"@,
        ),
{
    let h = watches[i];
    let args = seq![crate::macros::case::fragment(h.method_name)];
    lemma_text_watch_future(args);
    let part = "let mut "@
        + crate::macros::case::fragment(watches[i].method_name)
        + "_rx_fut = std::pin::pin!("@
        + crate::macros::case::fragment(watches[i].method_name)
        + "_rx.changed().fuse());
"@;
    assert(crate::macros::spawn::watch_future(h) == part);
    let parts = watches.map_values(|h: WatchHandlerView| crate::macros::spawn::watch_future(h));
    crate::text::lemma_concat_holds(parts, i);
    let all = crate::text::concat(events.map(|i: int, h: EventHandlerView| crate::macros::spawn::event_future(i, h)));
    let more = crate::text::concat(watches.map_values(|h: WatchHandlerView| crate::macros::spawn::watch_future(h)));
    crate::text::lemma_holds_ends(all, more);
    crate::text::lemma_holds_through(all + more, more, parts[i]);
    lemma_futures_in_impl(names, commands, events, watches, tasks, part);
}

/// For every event handler the spawn function subscribes the handler's
/// receiver to the handler's source, before the loop starts.
pub proof fn law_every_event_is_subscribed(
    names: NamesView,
    commands: Seq<CommandView>,
    events: Seq<EventHandlerView>,
    watches: Seq<WatchHandlerView>,
    tasks: Seq<TaskView>,
    i: int,
)
    requires
        0 <= i < events.len(),
    ensures
        crate::text::holds(
            crate::macros::spawn::spawn_impl(names, commands, events, watches, tasks),
            "let mut "@
                + crate::macros::case::fragment(events[i].method_name)
                + "_rx = self."@
                + events[i].source_field
                + "."@
                + events[i].subscription
                + "();
"@,
        ),
{
    let h = events[i];
    let args = seq![crate::macros::case::fragment(h.method_name), h.source_field, h.subscription];
    lemma_text_event_setup(args);
    let part = "let mut "@
        + crate::macros::case::fragment(events[i].method_name)
        + "_rx = self."@
        + events[i].source_field
        + "."@
        + events[i].subscription
        + "();
"@;
    assert(crate::macros::spawn::event_setup(h) == part);
    let parts = events.map_values(|h: EventHandlerView| crate::macros::spawn::event_setup(h));
    crate::text::lemma_concat_holds(parts, i);
    let all = crate::text::concat(events.map_values(|h: EventHandlerView| crate::macros::spawn::event_setup(h)));
    let more = crate::text::concat(watches.map_values(|h: WatchHandlerView| crate::macros::spawn::watch_setup(h)));
    crate::text::lemma_holds_ends(all, more);
    crate::text::lemma_holds_through(all + more, all, parts[i]);
    lemma_in_impl(names, commands, events, watches, tasks, part);
}

/// For every watch handler the spawn function watches the views of the
/// handler's source, before the loop starts.
pub proof fn law_every_watch_is_subscribed(
    names: NamesView,
    commands: Seq<CommandView>,
    events: Seq<EventHandlerView>,
    watches: Seq<WatchHandlerView>,
    tasks: Seq<TaskView>,
    i: int,
)
    requires
        0 <= i < watches.len(),
    ensures
        crate::text::holds(
            crate::macros::spawn::spawn_impl(names, commands, events, watches, tasks),
            "let mut "@
                + crate::macros::case::fragment(watches[i].method_name)
                + "_rx = self."@
                + watches[i].source_field
                + ".watch_view();
"@,
        ),
{
    let h = watches[i];
    let args = seq![crate::macros::case::fragment(h.method_name), h.source_field];
    lemma_text_watch_setup(args);
    let part = "let mut "@
        + crate::macros::case::fragment(watches[i].method_name)
        + "_rx = self."@
        + watches[i].source_field
        + ".watch_view();
"@;
    assert(crate::macros::spawn::watch_setup(h) == part);
    let parts = watches.map_values(|h: WatchHandlerView| crate::macros::spawn::watch_setup(h));
    crate::text::lemma_concat_holds(parts, i);
    let all = crate::text::concat(events.map_values(|h: EventHandlerView| crate::macros::spawn::event_setup(h)));
    let more = crate::text::concat(watches.map_values(|h: WatchHandlerView| crate::macros::spawn::watch_setup(h)));
    crate::text::lemma_holds_ends(all, more);
    crate::text::lemma_holds_through(all + more, more, parts[i]);
    lemma_in_impl(names, commands, events, watches, tasks, part);
}

/// The arm of an event handler, spelled out.
proof fn lemma_event_arm(i: int, h: EventHandlerView)
    ensures
        crate::macros::spawn::event_arm(i, h) == "result = "@
            + crate::macros::case::fragment(h.method_name)
            + "_rx_fut => {
    match result {
        Some(event) => {
            {
                let mut s = state.write().unwrap();
                s."@
            + h.method_name
            + "(event);
                s.__rillet_publish_view();
                s.__rillet_ops.flush_conclusions();
            }
            "@
            + "if __flow.exits(|| state.read().unwrap().__rillet_has_observers()) {
    break;
}
"@
            + "
        }
        None => {
            __flow.close_source("@
            + crate::text::digits(i as nat)
            + "usize"@
            + ");
            "@
            + "if __flow.exits(|| state.read().unwrap().__rillet_has_observers()) {
    break;
}
"@
            + "
        }
    }
}
"@,
{
    let args = seq![
        crate::macros::case::fragment(h.method_name),
        h.method_name,
        crate::macros::commands::usize_literal(i as nat),
        EXIT_CHECK@,
    ];
    lemma_usize_literal(i as nat);
    lemma_text_event_arm(args);
}

/// The arm of a watch handler, spelled out.
proof fn lemma_watch_arm(h: WatchHandlerView)
    ensures
        crate::macros::spawn::watch_arm(h) == "view = "@
            + crate::macros::case::fragment(h.method_name)
            + "_rx_fut => {
    {
        let mut s = state.write().unwrap();
        s."@
            + h.method_name
            + "(view);
        s.__rillet_publish_view();
        s.__rillet_ops.flush_conclusions();
    }
    "@
            + "if __flow.exits(|| state.read().unwrap().__rillet_has_observers()) {
    break;
}
"@
            + "
}
"@,
{
    let args = seq![crate::macros::case::fragment(h.method_name), h.method_name, EXIT_CHECK@];
    lemma_text_watch_arm(args);
}

/// The loop of a service with commands selects over the token, the command
/// channel and exactly one arm for each handler, in the handlers' order, and
/// over nothing else.
pub proof fn law_command_loop_selects(
    names: NamesView,
    commands: Seq<CommandView>,
    events: Seq<EventHandlerView>,
    watches: Seq<WatchHandlerView>,
    tasks: Seq<TaskView>,
) -> (arms: Seq<Seq<char>>)
    requires
        commands.len() > 0,
    ensures
        arms.len() == events.len() + watches.len(),
        forall|i: int| 0 <= i < events.len() ==> #[trigger] arms[i] == "result = "@
            + crate::macros::case::fragment(events[i].method_name)
            + "_rx_fut => {
    match result {
        Some(event) => {
            {
                let mut s = state.write().unwrap();
                s."@
            + events[i].method_name
            + "(event);
                s.__rillet_publish_view();
                s.__rillet_ops.flush_conclusions();
            }
            "@
            + "if __flow.exits(|| state.read().unwrap().__rillet_has_observers()) {
    break;
}
"@
            + "
        }
        None => {
            __flow.close_source("@
            + crate::text::digits(i as nat)
            + "usize"@
            + ");
            "@
            + "if __flow.exits(|| state.read().unwrap().__rillet_has_observers()) {
    break;
}
"@
            + "
        }
    }
}
"@,
        forall|i: int| 0 <= i < watches.len() ==> #[trigger] arms[events.len() + i] == "view = "@
            + crate::macros::case::fragment(watches[i].method_name)
            + "_rx_fut => {
    {
        let mut s = state.write().unwrap();
        s."@
            + watches[i].method_name
            + "(view);
        s.__rillet_publish_view();
        s.__rillet_ops.flush_conclusions();
    }
    "@
            + "if __flow.exits(|| state.read().unwrap().__rillet_has_observers()) {
    break;
}
"@
            + "
}
"@,
        crate::text::holds(
            crate::macros::spawn::spawn_impl(names, commands, events, watches, tasks),
            "rillet::runtime::futures::select! {
        _ = cancel_fut => {
            // Drain remaining commands before exit
            while let Ok(cmd) = cmd_rx.try_recv() {
                "@
                + "let cmd_idx = cmd.index();
{
    let mut s = state.write().unwrap();
    cmd.execute(&mut s);
    s.__rillet_publish_view();
    s.__rillet_ops.flush_conclusions();

    s.__rillet_sampling_state.inc_command();
    if s.__rillet_sampling_state.should_sample() {
        metrics.record_sample();
        s.__rillet_sampling_state.reset();
    }
}
metrics.inc_processed(cmd_idx);
"@
                + "
            }
            break;
        }
        result = cmd_fut => {
            match result {
                Ok(cmd) => {
                    "@
                + "let cmd_idx = cmd.index();
{
    let mut s = state.write().unwrap();
    cmd.execute(&mut s);
    s.__rillet_publish_view();
    s.__rillet_ops.flush_conclusions();

    s.__rillet_sampling_state.inc_command();
    if s.__rillet_sampling_state.should_sample() {
        metrics.record_sample();
        s.__rillet_sampling_state.reset();
    }
}
metrics.inc_processed(cmd_idx);
"@
                + "
                }
                Err(_) => {
                    __flow.close_commands();
                    "@
                + "if __flow.exits(|| state.read().unwrap().__rillet_has_observers()) {
    break;
}
"@
                + "
                }
            }
        }
        "@
                + crate::text::concat(arms)
                + "
    }
}
"@,
        ),
{
    let args = seq![
        crate::macros::commands::usize_literal(events.len()),
        crate::macros::spawn::truth(watches.len() > 0),
        crate::macros::spawn::input_futures(events, watches),
        COMMAND_FUTURE@,
        RUN_COMMAND@,
        EXIT_CHECK@,
        crate::macros::spawn::input_arms(events, watches),
    ];
    let event_arms = events.map(|i: int, h: EventHandlerView| crate::macros::spawn::event_arm(i, h));
    let watch_arms = watches.map_values(|h: WatchHandlerView| crate::macros::spawn::watch_arm(h));
    let arms = event_arms + watch_arms;
    crate::text::lemma_concat_add(event_arms, watch_arms);
    lemma_text_command_loop(args);
    let part1 = "rillet::runtime::futures::select! {
        _ = cancel_fut => {
            // Drain remaining commands before exit
            while let Ok(cmd) = cmd_rx.try_recv() {
                "@ + RUN_COMMAND@ + "
            }
            break;
        }
        result = cmd_fut => {
            match result {
                Ok(cmd) => {
                    "@ + RUN_COMMAND@ + "
                }
                Err(_) => {
                    __flow.close_commands();
                    "@ + EXIT_CHECK@ + "
                }
            }
        }
        "@ + crate::text::concat(arms) + "
    }
}
"@;
    lemma_in_impl(names, commands, events, watches, tasks, part1);
    assert forall|i: int| 0 <= i < events.len() implies #[trigger] arms[i] == "result = "@
        + crate::macros::case::fragment(events[i].method_name)
        + "_rx_fut => {
    match result {
        Some(event) => {
            {
                let mut s = state.write().unwrap();
                s."@
        + events[i].method_name
        + "(event);
                s.__rillet_publish_view();
                s.__rillet_ops.flush_conclusions();
            }
            "@
        + EXIT_CHECK@
        + "
        }
        None => {
            __flow.close_source("@
        + crate::text::digits(i as nat)
        + "usize"@
        + ");
            "@
        + EXIT_CHECK@
        + "
        }
    }
}
"@ by {
        lemma_event_arm(i, events[i]);
    }
    assert forall|i: int| 0 <= i < watches.len() implies #[trigger] arms[events.len() + i] == "view = "@
        + crate::macros::case::fragment(watches[i].method_name)
        + "_rx_fut => {
    {
        let mut s = state.write().unwrap();
        s."@
        + watches[i].method_name
        + "(view);
        s.__rillet_publish_view();
        s.__rillet_ops.flush_conclusions();
    }
    "@
        + EXIT_CHECK@
        + "
}
"@ by {
        lemma_watch_arm(watches[i]);
    }
    arms
}

/// The loop of a service that only handles events or views selects over the
/// token, the command channel and exactly one arm for each handler, in the
/// handlers' order, and over nothing else.
pub proof fn law_input_loop_selects(
    names: NamesView,
    commands: Seq<CommandView>,
    events: Seq<EventHandlerView>,
    watches: Seq<WatchHandlerView>,
    tasks: Seq<TaskView>,
) -> (arms: Seq<Seq<char>>)
    requires
        commands.len() == 0,
        events.len() > 0 || watches.len() > 0,
    ensures
        arms.len() == events.len() + watches.len(),
        forall|i: int| 0 <= i < events.len() ==> #[trigger] arms[i] == "result = "@
            + crate::macros::case::fragment(events[i].method_name)
            + "_rx_fut => {
    match result {
        Some(event) => {
            {
                let mut s = state.write().unwrap();
                s."@
            + events[i].method_name
            + "(event);
                s.__rillet_publish_view();
                s.__rillet_ops.flush_conclusions();
            }
            "@
            + "if __flow.exits(|| state.read().unwrap().__rillet_has_observers()) {
    break;
}
"@
            + "
        }
        None => {
            __flow.close_source("@
            + crate::text::digits(i as nat)
            + "usize"@
            + ");
            "@
            + "if __flow.exits(|| state.read().unwrap().__rillet_has_observers()) {
    break;
}
"@
            + "
        }
    }
}
"@,
        forall|i: int| 0 <= i < watches.len() ==> #[trigger] arms[events.len() + i] == "view = "@
            + crate::macros::case::fragment(watches[i].method_name)
            + "_rx_fut => {
    {
        let mut s = state.write().unwrap();
        s."@
            + watches[i].method_name
            + "(view);
        s.__rillet_publish_view();
        s.__rillet_ops.flush_conclusions();
    }
    "@
            + "if __flow.exits(|| state.read().unwrap().__rillet_has_observers()) {
    break;
}
"@
            + "
}
"@,
        crate::text::holds(
            crate::macros::spawn::spawn_impl(names, commands, events, watches, tasks),
            "rillet::runtime::futures::select! {
        _ = cancel_fut => break,
        result = cmd_fut => {
            if result.is_err() {
                __flow.close_commands();
                "@
                + "if __flow.exits(|| state.read().unwrap().__rillet_has_observers()) {
    break;
}
"@
                + "
            }
        }
        "@
                + crate::text::concat(arms)
                + "
    }
}
"@,
        ),
{
    let args = seq![
        crate::macros::commands::usize_literal(events.len()),
        crate::macros::spawn::truth(watches.len() > 0),
        crate::macros::spawn::input_futures(events, watches),
        COMMAND_FUTURE@,
        RUN_COMMAND@,
        EXIT_CHECK@,
        crate::macros::spawn::input_arms(events, watches),
    ];
    let event_arms = events.map(|i: int, h: EventHandlerView| crate::macros::spawn::event_arm(i, h));
    let watch_arms = watches.map_values(|h: WatchHandlerView| crate::macros::spawn::watch_arm(h));
    let arms = event_arms + watch_arms;
    crate::text::lemma_concat_add(event_arms, watch_arms);
    lemma_text_input_loop(args);
    let part1 = "rillet::runtime::futures::select! {
        _ = cancel_fut => break,
        result = cmd_fut => {
            if result.is_err() {
                __flow.close_commands();
                "@ + EXIT_CHECK@ + "
            }
        }
        "@ + crate::text::concat(arms) + "
    }
}
"@;
    lemma_in_impl(names, commands, events, watches, tasks, part1);
    assert forall|i: int| 0 <= i < events.len() implies #[trigger] arms[i] == "result = "@
        + crate::macros::case::fragment(events[i].method_name)
        + "_rx_fut => {
    match result {
        Some(event) => {
            {
                let mut s = state.write().unwrap();
                s."@
        + events[i].method_name
        + "(event);
                s.__rillet_publish_view();
                s.__rillet_ops.flush_conclusions();
            }
            "@
        + EXIT_CHECK@
        + "
        }
        None => {
            __flow.close_source("@
        + crate::text::digits(i as nat)
        + "usize"@
        + ");
            "@
        + EXIT_CHECK@
        + "
        }
    }
}
"@ by {
        lemma_event_arm(i, events[i]);
    }
    assert forall|i: int| 0 <= i < watches.len() implies #[trigger] arms[events.len() + i] == "view = "@
        + crate::macros::case::fragment(watches[i].method_name)
        + "_rx_fut => {
    {
        let mut s = state.write().unwrap();
        s."@
        + watches[i].method_name
        + "(view);
        s.__rillet_publish_view();
        s.__rillet_ops.flush_conclusions();
    }
    "@
        + EXIT_CHECK@
        + "
}
"@ by {
        lemma_watch_arm(watches[i]);
    }
    arms
}

/// The loop of a service with commands counts as many event sources as the
/// service has event handlers, and knows whether it watches any view.
pub proof fn law_command_loop_counts(
    names: NamesView,
    commands: Seq<CommandView>,
    events: Seq<EventHandlerView>,
    watches: Seq<WatchHandlerView>,
    tasks: Seq<TaskView>,
)
    requires
        commands.len() > 0,
    ensures
        crate::text::holds(
            crate::macros::spawn::spawn_impl(names, commands, events, watches, tasks),
            "let mut __flow = rillet::runtime::LoopState::new("@
                + crate::text::digits(events.len())
                + "usize"@
                + ", "@
                + (if watches.len() > 0 { "true"@ } else { "false"@ })
                + ");
loop {
    use rillet::runtime::FutureExt;
"@,
        ),
{
    let args = seq![
        crate::macros::commands::usize_literal(events.len()),
        crate::macros::spawn::truth(watches.len() > 0),
        crate::macros::spawn::input_futures(events, watches),
        COMMAND_FUTURE@,
        RUN_COMMAND@,
        EXIT_CHECK@,
        crate::macros::spawn::input_arms(events, watches),
    ];
    lemma_usize_literal(events.len());
    lemma_text_command_loop(args);
    let part = "let mut __flow = rillet::runtime::LoopState::new("@
        + crate::text::digits(events.len())
        + "usize"@
        + ", "@
        + (if watches.len() > 0 { "true"@ } else { "false"@ })
        + ");
loop {
    use rillet::runtime::FutureExt;
"@;
    assert("let mut __flow = rillet::runtime::LoopState::new("@
        + crate::macros::commands::usize_literal(events.len())
        + ", "@
        + crate::macros::spawn::truth(watches.len() > 0)
        + ");
loop {
    use rillet::runtime::FutureExt;
"@ =~= part);
    lemma_in_impl(names, commands, events, watches, tasks, part);
}

/// The loop of a service without commands counts as many event sources as the
/// service has event handlers, and knows whether it watches any view.
pub proof fn law_input_loop_counts(
    names: NamesView,
    commands: Seq<CommandView>,
    events: Seq<EventHandlerView>,
    watches: Seq<WatchHandlerView>,
    tasks: Seq<TaskView>,
)
    requires
        commands.len() == 0,
        events.len() > 0 || watches.len() > 0,
    ensures
        crate::text::holds(
            crate::macros::spawn::spawn_impl(names, commands, events, watches, tasks),
            "let mut __flow = rillet::runtime::LoopState::new("@
                + crate::text::digits(events.len())
                + "usize"@
                + ", "@
                + (if watches.len() > 0 { "true"@ } else { "false"@ })
                + ");
loop {
    use rillet::runtime::FutureExt;
"@,
        ),
{
    let args = seq![
        crate::macros::commands::usize_literal(events.len()),
        crate::macros::spawn::truth(watches.len() > 0),
        crate::macros::spawn::input_futures(events, watches),
        COMMAND_FUTURE@,
        RUN_COMMAND@,
        EXIT_CHECK@,
        crate::macros::spawn::input_arms(events, watches),
    ];
    lemma_usize_literal(events.len());
    lemma_text_input_loop(args);
    let part = "let mut __flow = rillet::runtime::LoopState::new("@
        + crate::text::digits(events.len())
        + "usize"@
        + ", "@
        + (if watches.len() > 0 { "true"@ } else { "false"@ })
        + ");
loop {
    use rillet::runtime::FutureExt;
"@;
    assert("let mut __flow = rillet::runtime::LoopState::new("@
        + crate::macros::commands::usize_literal(events.len())
        + ", "@
        + crate::macros::spawn::truth(watches.len() > 0)
        + ");
loop {
    use rillet::runtime::FutureExt;
"@ =~= part);
    lemma_in_impl(names, commands, events, watches, tasks, part);
}

/// The spawn function makes the command channel with the service's capacity
/// and one counter for each command, wires the emitter, seeds the view and
/// subscribes the handlers, in this order, before anything is spawned.
pub proof fn law_spawn_makes_the_channel(
    names: NamesView,
    commands: Seq<CommandView>,
    events: Seq<EventHandlerView>,
    watches: Seq<WatchHandlerView>,
    tasks: Seq<TaskView>,
)
    ensures
        crate::text::holds(
            crate::macros::spawn::spawn_impl(names, commands, events, watches, tasks),
            "impl "@
                + names.service
                + " {
    /// Spawns the service loop; the caller spawns the tasks.
    fn __rillet_spawn_core_with<__S: rillet::runtime::Spawner>(
        mut self,
        spawner: &__S,
    ) -> ("@
                + names.handle
                + ", rillet::runtime::Arc<rillet::runtime::TaskSet>) {
        let (cmd_tx, cmd_rx) =
            rillet::runtime::mpsc::bounded::<"@
                + names.command
                + ">("@
                + names.service
                + "::__RILLET_COMMAND_CAPACITY);

        let metrics = rillet::runtime::Arc::new(rillet::metrics::CommandMetrics::<"@
                + crate::text::digits(commands.len())
                + "usize"@
                + ">::new());

        self.__rillet_wire_emitter();
        self.__rillet_seed_view();
        let __rillet_view = self.__rillet_view_slot_any();
        let __rillet_gauges = self.__rillet_gauges();

        "@
                + crate::macros::spawn::receiver_setup(events, watches)
                + "

        let cancel_token = self.__rillet_cancel_token.clone();
        let tasks = self.__rillet_tasks.clone();
"@,
        ),
{
    let setup = crate::macros::spawn::receiver_setup(events, watches);
    let body = crate::macros::spawn::service_loop(commands.len() > 0, events, watches);
    let args = seq![
        names.service,
        names.handle,
        names.command,
        crate::macros::commands::usize_literal(commands.len()),
        setup,
        body,
        if crate::macros::spawn::has_ops(commands) { SPAWN_EXPIRY@ } else { EMPTY@ },
        if crate::macros::spawn::has_ops(commands) { STOP_EXPIRY@ } else { EMPTY@ },
    ];
    lemma_usize_literal(commands.len());
    lemma_text_spawn_core(args);
    let part = "impl "@
        + names.service
        + " {
    /// Spawns the service loop; the caller spawns the tasks.
    fn __rillet_spawn_core_with<__S: rillet::runtime::Spawner>(
        mut self,
        spawner: &__S,
    ) -> ("@
        + names.handle
        + ", rillet::runtime::Arc<rillet::runtime::TaskSet>) {
        let (cmd_tx, cmd_rx) =
            rillet::runtime::mpsc::bounded::<"@
        + names.command
        + ">("@
        + names.service
        + "::__RILLET_COMMAND_CAPACITY);

        let metrics = rillet::runtime::Arc::new(rillet::metrics::CommandMetrics::<"@
        + crate::text::digits(commands.len())
        + "usize"@
        + ">::new());

        self.__rillet_wire_emitter();
        self.__rillet_seed_view();
        let __rillet_view = self.__rillet_view_slot_any();
        let __rillet_gauges = self.__rillet_gauges();

        "@
        + crate::macros::spawn::receiver_setup(events, watches)
        + "

        let cancel_token = self.__rillet_cancel_token.clone();
        let tasks = self.__rillet_tasks.clone();
"@;
    assert("impl "@
        + args[0]
        + " {
    /// Spawns the service loop; the caller spawns the tasks.
    fn __rillet_spawn_core_with<__S: rillet::runtime::Spawner>(
        mut self,
        spawner: &__S,
    ) -> ("@
        + args[1]
        + ", rillet::runtime::Arc<rillet::runtime::TaskSet>) {
        let (cmd_tx, cmd_rx) =
            rillet::runtime::mpsc::bounded::<"@
        + args[2]
        + ">("@
        + args[0]
        + "::__RILLET_COMMAND_CAPACITY);

        let metrics = rillet::runtime::Arc::new(rillet::metrics::CommandMetrics::<"@
        + args[3]
        + ">::new());

        self.__rillet_wire_emitter();
        self.__rillet_seed_view();
        let __rillet_view = self.__rillet_view_slot_any();
        let __rillet_gauges = self.__rillet_gauges();

        "@
        + args[4]
        + "

        let cancel_token = self.__rillet_cancel_token.clone();
        let tasks = self.__rillet_tasks.clone();
"@ =~= part);
    lemma_in_impl(names, commands, events, watches, tasks, part);
}

/// Where a service has an op, the spawn function spawns the task that fails
/// overdue operations, and the end of the loop closes the operations and
/// stops that task. The loop runs in a task of its own, which is in the task
/// set.
pub proof fn law_ops_expire(
    names: NamesView,
    commands: Seq<CommandView>,
    events: Seq<EventHandlerView>,
    watches: Seq<WatchHandlerView>,
    tasks: Seq<TaskView>,
)
    requires
        exists|i: int| 0 <= i < commands.len() && !((#[trigger] commands[i]).kind is Plain),
    ensures
        crate::text::holds(
            crate::macros::spawn::spawn_impl(names, commands, events, watches, tasks),
            "let tasks = self.__rillet_tasks.clone();
        "@
                + "let ops = self.__rillet_ops.clone();
let expiry = rillet::runtime::CancellationToken::new();
tasks.push(Box::new(spawner.spawn(rillet::op::expire_loop(ops.clone(), expiry.clone()))));
"@
                + "

        let state = rillet::runtime::Arc::new(rillet::runtime::RwLock::new(self));
        let state_clone = state.clone();

        {
            let cancel_token = cancel_token.clone();
            let metrics = metrics.clone();
            let main_loop_handle = spawner.spawn(async move {
                "@
                + crate::macros::spawn::service_loop(commands.len() > 0, events, watches)
                + "
                "@
                + "ops.close();
expiry.cancel();
"@
                + "
            });
            tasks.push(Box::new(main_loop_handle));"@,
        ),
{
    let setup = crate::macros::spawn::receiver_setup(events, watches);
    let body = crate::macros::spawn::service_loop(commands.len() > 0, events, watches);
    let args = seq![
        names.service,
        names.handle,
        names.command,
        crate::macros::commands::usize_literal(commands.len()),
        setup,
        body,
        if crate::macros::spawn::has_ops(commands) { SPAWN_EXPIRY@ } else { EMPTY@ },
        if crate::macros::spawn::has_ops(commands) { STOP_EXPIRY@ } else { EMPTY@ },
    ];
    lemma_text_spawn_core(args);
    let part = "let tasks = self.__rillet_tasks.clone();
        "@ + SPAWN_EXPIRY@ + "

        let state = rillet::runtime::Arc::new(rillet::runtime::RwLock::new(self));
        let state_clone = state.clone();

        {
            let cancel_token = cancel_token.clone();
            let metrics = metrics.clone();
            let main_loop_handle = spawner.spawn(async move {
                "@ + crate::macros::spawn::service_loop(commands.len() > 0, events, watches) + "
                "@ + "ops.close();
expiry.cancel();
"@ + "
            });
            tasks.push(Box::new(main_loop_handle));"@;
    assert("let tasks = self.__rillet_tasks.clone();
        "@ + args[6] + "

        let state = rillet::runtime::Arc::new(rillet::runtime::RwLock::new(self));
        let state_clone = state.clone();

        {
            let cancel_token = cancel_token.clone();
            let metrics = metrics.clone();
            let main_loop_handle = spawner.spawn(async move {
                "@ + args[5] + "
                "@ + args[7] + "
            });
            tasks.push(Box::new(main_loop_handle));"@ =~= part);
    lemma_in_impl(names, commands, events, watches, tasks, part);
}

/// Where no command of a service is an op, the loop runs in a task of its own,
/// which is in the task set, and nothing else is spawned with it.
pub proof fn law_no_ops_no_expiry(
    names: NamesView,
    commands: Seq<CommandView>,
    events: Seq<EventHandlerView>,
    watches: Seq<WatchHandlerView>,
    tasks: Seq<TaskView>,
)
    requires
        forall|i: int| 0 <= i < commands.len() ==> (#[trigger] commands[i]).kind is Plain,
    ensures
        crate::text::holds(
            crate::macros::spawn::spawn_impl(names, commands, events, watches, tasks),
            "let tasks = self.__rillet_tasks.clone();
        "@
                + ""@
                + "

        let state = rillet::runtime::Arc::new(rillet::runtime::RwLock::new(self));
        let state_clone = state.clone();

        {
            let cancel_token = cancel_token.clone();
            let metrics = metrics.clone();
            let main_loop_handle = spawner.spawn(async move {
                "@
                + crate::macros::spawn::service_loop(commands.len() > 0, events, watches)
                + "
                "@
                + ""@
                + "
            });
            tasks.push(Box::new(main_loop_handle));"@,
        ),
{
    let setup = crate::macros::spawn::receiver_setup(events, watches);
    let body = crate::macros::spawn::service_loop(commands.len() > 0, events, watches);
    let args = seq![
        names.service,
        names.handle,
        names.command,
        crate::macros::commands::usize_literal(commands.len()),
        setup,
        body,
        if crate::macros::spawn::has_ops(commands) { SPAWN_EXPIRY@ } else { EMPTY@ },
        if crate::macros::spawn::has_ops(commands) { STOP_EXPIRY@ } else { EMPTY@ },
    ];
    lemma_text_spawn_core(args);
    let part = "let tasks = self.__rillet_tasks.clone();
        "@ + ""@ + "

        let state = rillet::runtime::Arc::new(rillet::runtime::RwLock::new(self));
        let state_clone = state.clone();

        {
            let cancel_token = cancel_token.clone();
            let metrics = metrics.clone();
            let main_loop_handle = spawner.spawn(async move {
                "@ + crate::macros::spawn::service_loop(commands.len() > 0, events, watches) + "
                "@ + ""@ + "
            });
            tasks.push(Box::new(main_loop_handle));"@;
    assert("let tasks = self.__rillet_tasks.clone();
        "@ + args[6] + "

        let state = rillet::runtime::Arc::new(rillet::runtime::RwLock::new(self));
        let state_clone = state.clone();

        {
            let cancel_token = cancel_token.clone();
            let metrics = metrics.clone();
            let main_loop_handle = spawner.spawn(async move {
                "@ + args[5] + "
                "@ + args[7] + "
            });
            tasks.push(Box::new(main_loop_handle));"@ =~= part);
    lemma_in_impl(names, commands, events, watches, tasks, part);
}

/// The spawn function returns the handle over the service's state, channel,
/// counters, view, gauges and token, with the task set.
pub proof fn law_spawn_returns_the_handle(
    names: NamesView,
    commands: Seq<CommandView>,
    events: Seq<EventHandlerView>,
    watches: Seq<WatchHandlerView>,
    tasks: Seq<TaskView>,
)
    ensures
        crate::text::holds(
            crate::macros::spawn::spawn_impl(names, commands, events, watches, tasks),
            "        (
            "@
                + names.handle
                + " {
                state,
                cmd_tx,
                metrics,
                __rillet_view,
                __rillet_gauges,
                __rillet_cancel: cancel_token,
                __rillet_tasks: tasks.clone(),
            },
            tasks,
        )
    }
}
"@,
        ),
{
    let setup = crate::macros::spawn::receiver_setup(events, watches);
    let body = crate::macros::spawn::service_loop(commands.len() > 0, events, watches);
    let args = seq![
        names.service,
        names.handle,
        names.command,
        crate::macros::commands::usize_literal(commands.len()),
        setup,
        body,
        if crate::macros::spawn::has_ops(commands) { SPAWN_EXPIRY@ } else { EMPTY@ },
        if crate::macros::spawn::has_ops(commands) { STOP_EXPIRY@ } else { EMPTY@ },
    ];
    lemma_text_spawn_core(args);
    let part = "        (
            "@ + names.handle + " {
                state,
                cmd_tx,
                metrics,
                __rillet_view,
                __rillet_gauges,
                __rillet_cancel: cancel_token,
                __rillet_tasks: tasks.clone(),
            },
            tasks,
        )
    }
}
"@;
    assert("        (
            "@ + args[1] + " {
                state,
                cmd_tx,
                metrics,
                __rillet_view,
                __rillet_gauges,
                __rillet_cancel: cancel_token,
                __rillet_tasks: tasks.clone(),
            },
            tasks,
        )
    }
}
"@ =~= part);
    lemma_in_impl(names, commands, events, watches, tasks, part);
}

/// A task spawn, spelled out.
proof fn lemma_handle_task(service: Seq<char>, method: Seq<char>)
    ensures
        crate::macros::spawn::handle_task_spawn(service, method) == "{
    let handle = handle.clone();
    let cancel_token = cancel_token.clone();
    let task_handle = spawner.spawn(async move {
        "@
            + service
            + "::"@
            + method
            + "(handle, cancel_token).await;
    });
    tasks.push(Box::new(task_handle));
}
"@,
{
    let args = seq![service, method];
    lemma_text_handle_task(args);
}

/// Where every task takes only the handle and the token, `spawn_with` spawns
/// the service and then, for every task and nothing else, a call of its method
/// with clones of the handle and the token, whose handle goes into the task
/// set; it returns the service's handle.
pub proof fn law_simple_spawn_spawns_each_task(
    names: NamesView,
    commands: Seq<CommandView>,
    events: Seq<EventHandlerView>,
    watches: Seq<WatchHandlerView>,
    tasks: Seq<TaskView>,
) -> (spawns: Seq<Seq<char>>)
    requires
        forall|i: int| 0 <= i < tasks.len() ==> (#[trigger] tasks[i]).extra_params.len() == 0,
    ensures
        crate::text::holds(
            crate::macros::spawn::spawn_impl(names, commands, events, watches, tasks),
            "pub fn spawn_with<__S: rillet::runtime::Spawner>(self, spawner: __S) -> "@
                + names.handle
                + " {
        "@
                + (if tasks.len() == 0 { "let (handle, _) = self.__rillet_spawn_core_with(&spawner);
"@ } else { "let cancel_token = self.__rillet_cancel_token.clone();
let (handle, tasks) = self.__rillet_spawn_core_with(&spawner);
"@ })
                + "

        "@
                + crate::text::concat(spawns)
                + "

        handle
    }
}
"@,
        ),
        spawns.len() == tasks.len(),
        forall|i: int| 0 <= i < tasks.len() ==> #[trigger] spawns[i] == "{
    let handle = handle.clone();
    let cancel_token = cancel_token.clone();
    let task_handle = spawner.spawn(async move {
        "@
            + names.service
            + "::"@
            + tasks[i].method_name
            + "(handle, cancel_token).await;
    });
    tasks.push(Box::new(task_handle));
}
"@,
{
    let core = crate::macros::spawn::spawn_core(names, commands, crate::macros::spawn::receiver_setup(events, watches), crate::macros::spawn::service_loop(commands.len() > 0, events, watches));
    let args = seq![
        names.service,
        names.handle,
        if tasks.len() == 0 { NO_TASK_SETUP@ } else { TASK_SETUP@ },
        crate::text::concat(tasks.map_values(|t: TaskView| crate::macros::spawn::handle_task_spawn(names.service, t.method_name))),
    ];
    let spawns = tasks.map_values(|t: TaskView| crate::macros::spawn::handle_task_spawn(names.service, t.method_name));
    let rest = crate::text::filled(SPAWN_SIMPLE@, args);
    assert(!crate::macros::spawn::any_context(tasks));
    crate::text::lemma_holds_ends(core, rest);
    lemma_text_spawn_simple(args);
    let part = "pub fn spawn_with<__S: rillet::runtime::Spawner>(self, spawner: __S) -> "@
        + names.handle
        + " {
        "@
        + (if tasks.len() == 0 { NO_TASK_SETUP@ } else { TASK_SETUP@ })
        + "

        "@
        + crate::text::concat(spawns)
        + "

        handle
    }
}
"@;
    crate::text::lemma_holds_through(core + rest, rest, part);
    assert forall|i: int| 0 <= i < tasks.len() implies #[trigger] spawns[i] == "{
    let handle = handle.clone();
    let cancel_token = cancel_token.clone();
    let task_handle = spawner.spawn(async move {
        "@ + names.service + "::"@ + tasks[i].method_name + "(handle, cancel_token).await;
    });
    tasks.push(Box::new(task_handle));
}
"@ by {
        lemma_handle_task(names.service, tasks[i].method_name);
    }
    spawns
}

/// `spawn` is `spawn_with` on the default spawner, with and without a builder.
pub proof fn law_spawn_uses_the_default_spawner(
    names: NamesView,
    commands: Seq<CommandView>,
    events: Seq<EventHandlerView>,
    watches: Seq<WatchHandlerView>,
    tasks: Seq<TaskView>,
)
    ensures
        crate::text::holds(
            crate::macros::spawn::spawn_impl(names, commands, events, watches, tasks),
            "    pub fn spawn(self) -> "@
                + names.handle
                + " {
        self.spawn_with(rillet::runtime::SmolSpawner)
    }

    /// Spawns this service on the given spawner and returns its
    /// handle.
    ///
    /// The service runs until cancelled.
    pub fn spawn_with<__S: rillet::runtime::Spawner>(self, spawner: __S) -> "@
                + names.handle
                + " {
"@,
        ),
{
    let part = "    pub fn spawn(self) -> "@ + names.handle + " {
        self.spawn_with(rillet::runtime::SmolSpawner)
    }

    /// Spawns this service on the given spawner and returns its
    /// handle.
    ///
    /// The service runs until cancelled.
    pub fn spawn_with<__S: rillet::runtime::Spawner>(self, spawner: __S) -> "@ + names.handle + " {
"@;
    if crate::macros::spawn::any_context(tasks) {
        let core = crate::macros::spawn::spawn_core(names, commands, crate::macros::spawn::receiver_setup(events, watches), crate::macros::spawn::service_loop(commands.len() > 0, events, watches));
        let builder = crate::text::filled(BUILDER_NAME@, seq![crate::macros::case::fragment(names.service)]);
        let bargs = seq![
            builder,
            names.service,
            crate::text::concat(tasks.map_values(|t: TaskView| crate::macros::spawn::builder_field(t))),
            crate::text::concat(tasks.map_values(|t: TaskView| crate::macros::spawn::service_spawn_method(builder, tasks, t))),
            crate::text::concat(tasks.map_values(|t: TaskView| crate::macros::spawn::builder_spawn_method(t))),
            names.handle,
            crate::text::concat(tasks.map_values(|t: TaskView| crate::macros::spawn::task_spawn(names.service, t))),
        ];
        let rest = crate::text::filled(SPAWN_BUILDER@, bargs);
        assert(crate::macros::spawn::any_context(tasks));
        crate::text::lemma_holds_ends(core, rest);
        lemma_text_spawn_builder(bargs);
        crate::text::lemma_holds_through(core + rest, rest, part);
    } else {
        let core = crate::macros::spawn::spawn_core(names, commands, crate::macros::spawn::receiver_setup(events, watches), crate::macros::spawn::service_loop(commands.len() > 0, events, watches));
        let args = seq![
            names.service,
            names.handle,
            if tasks.len() == 0 { NO_TASK_SETUP@ } else { TASK_SETUP@ },
            crate::text::concat(tasks.map_values(|t: TaskView| crate::macros::spawn::handle_task_spawn(names.service, t.method_name))),
        ];
        let rest = crate::text::filled(SPAWN_SIMPLE@, args);
        assert(!crate::macros::spawn::any_context(tasks));
        crate::text::lemma_holds_ends(core, rest);
        lemma_text_spawn_simple(args);
        crate::text::lemma_holds_through(core + rest, rest, part);
    }
}

/// Every task that takes only the handle and the token is spawned: the spawn
/// methods hold the code that spawns a call of its method with clones of the
/// handle and the token and puts the task's handle into the task set.
pub proof fn law_every_task_is_spawned(
    names: NamesView,
    commands: Seq<CommandView>,
    events: Seq<EventHandlerView>,
    watches: Seq<WatchHandlerView>,
    tasks: Seq<TaskView>,
    i: int,
)
    requires
        0 <= i < tasks.len(),
        tasks[i].extra_params.len() == 0,
    ensures
        crate::text::holds(
            crate::macros::spawn::spawn_impl(names, commands, events, watches, tasks),
            "{
    let handle = handle.clone();
    let cancel_token = cancel_token.clone();
    let task_handle = spawner.spawn(async move {
        "@
                + names.service
                + "::"@
                + tasks[i].method_name
                + "(handle, cancel_token).await;
    });
    tasks.push(Box::new(task_handle));
}
"@,
        ),
{
    lemma_handle_task(names.service, tasks[i].method_name);
    let part = "{
    let handle = handle.clone();
    let cancel_token = cancel_token.clone();
    let task_handle = spawner.spawn(async move {
        "@ + names.service + "::"@ + tasks[i].method_name + "(handle, cancel_token).await;
    });
    tasks.push(Box::new(task_handle));
}
"@;
    if crate::macros::spawn::any_context(tasks) {
        let core = crate::macros::spawn::spawn_core(names, commands, crate::macros::spawn::receiver_setup(events, watches), crate::macros::spawn::service_loop(commands.len() > 0, events, watches));
        let builder = crate::text::filled(BUILDER_NAME@, seq![crate::macros::case::fragment(names.service)]);
        let bargs = seq![
            builder,
            names.service,
            crate::text::concat(tasks.map_values(|t: TaskView| crate::macros::spawn::builder_field(t))),
            crate::text::concat(tasks.map_values(|t: TaskView| crate::macros::spawn::service_spawn_method(builder, tasks, t))),
            crate::text::concat(tasks.map_values(|t: TaskView| crate::macros::spawn::builder_spawn_method(t))),
            names.handle,
            crate::text::concat(tasks.map_values(|t: TaskView| crate::macros::spawn::task_spawn(names.service, t))),
        ];
        let rest = crate::text::filled(SPAWN_BUILDER@, bargs);
        assert(crate::macros::spawn::any_context(tasks));
        crate::text::lemma_holds_ends(core, rest);
        let parts = tasks.map_values(|t: TaskView| crate::macros::spawn::task_spawn(names.service, t));
        crate::text::lemma_concat_holds(parts, i);
        lemma_text_spawn_builder(bargs);
        let spawns = crate::text::concat(parts);
        crate::text::lemma_holds_middle("self.inner.__rillet_spawn_core_with(&spawner);

        "@, spawns, "

        handle
"@);
        crate::text::lemma_holds_through(rest, "self.inner.__rillet_spawn_core_with(&spawner);

        "@ + spawns + "

        handle
"@, spawns);
        crate::text::lemma_holds_through(rest, spawns, part);
        crate::text::lemma_holds_through(core + rest, rest, part);
    } else {
        let core = crate::macros::spawn::spawn_core(names, commands, crate::macros::spawn::receiver_setup(events, watches), crate::macros::spawn::service_loop(commands.len() > 0, events, watches));
        let args = seq![
            names.service,
            names.handle,
            if tasks.len() == 0 { NO_TASK_SETUP@ } else { TASK_SETUP@ },
            crate::text::concat(tasks.map_values(|t: TaskView| crate::macros::spawn::handle_task_spawn(names.service, t.method_name))),
        ];
        let rest = crate::text::filled(SPAWN_SIMPLE@, args);
        assert(!crate::macros::spawn::any_context(tasks));
        crate::text::lemma_holds_ends(core, rest);
        let parts = tasks.map_values(|t: TaskView| crate::macros::spawn::handle_task_spawn(names.service, t.method_name));
        crate::text::lemma_concat_holds(parts, i);
        lemma_text_spawn_simple(args);
        let spawns = crate::text::concat(parts);
        crate::text::lemma_holds_middle("

        "@, spawns, "

        handle
"@);
        crate::text::lemma_holds_through(rest, "

        "@ + spawns + "

        handle
"@, spawns);
        crate::text::lemma_holds_through(rest, spawns, part);
        crate::text::lemma_holds_through(core + rest, rest, part);
    }
}

/// A task's context is taken apart into one name for each parameter, numbered
/// in their order.
pub proof fn law_context_arguments(n: nat)
    ensures
        crate::macros::spawn::context_args(n) == crate::text::joined(Seq::new(n, |k: int| "__ctx_"@ + crate::text::digits(k as nat)), ", "@),
{
    let parts = crate::text::numbered_parts(CONTEXT_ARG@, n);
    let spelled = Seq::new(n, |k: int| "__ctx_"@ + crate::text::digits(k as nat));
    assert forall|k: int| 0 <= k < n implies #[trigger] parts[k] == spelled[k] by {
        let args = seq![crate::text::digits(k as nat)];
        lemma_text_context_arg(args);
        assert("__ctx_"@ + crate::text::digits(k as nat) =~= spelled[k]);
    }
    assert(parts =~= spelled);
}

/// The spawn of a task with a context, spelled out.
proof fn lemma_task_spawn(service: Seq<char>, t: TaskView)
    requires
        t.extra_params.len() > 0,
    ensures
        crate::macros::spawn::task_spawn(service, t) == "if let Some(("@
            + crate::macros::spawn::context_args(t.extra_params.len())
            + ",)) = self."@
            + crate::macros::case::fragment(t.method_name)
            + "_ctx {
    let handle = handle.clone();
    let cancel_token = cancel_token.clone();
    let task_handle = spawner.spawn(async move {
        "@
            + service
            + "::"@
            + t.method_name
            + "(handle, cancel_token, "@
            + crate::macros::spawn::context_args(t.extra_params.len())
            + ").await;
    });
    tasks.push(Box::new(task_handle));
}
"@,
{
    let args = seq![
        service,
        t.method_name,
        crate::macros::spawn::context_args(t.extra_params.len()),
        crate::macros::case::fragment(t.method_name),
    ];
    lemma_text_context_task(args);
}

/// Every task with a context is spawned where its context was given: the
/// builder's `spawn_with` holds the code that spawns a call of its method with
/// clones of the handle and the token and the context's values, and puts the
/// task's handle into the task set.
pub proof fn law_context_task_is_spawned(
    names: NamesView,
    commands: Seq<CommandView>,
    events: Seq<EventHandlerView>,
    watches: Seq<WatchHandlerView>,
    tasks: Seq<TaskView>,
    i: int,
)
    requires
        0 <= i < tasks.len(),
        tasks[i].extra_params.len() > 0,
    ensures
        crate::text::holds(
            crate::macros::spawn::spawn_impl(names, commands, events, watches, tasks),
            "if let Some(("@
                + crate::macros::spawn::context_args(tasks[i].extra_params.len())
                + ",)) = self."@
                + crate::macros::case::fragment(tasks[i].method_name)
                + "_ctx {
    let handle = handle.clone();
    let cancel_token = cancel_token.clone();
    let task_handle = spawner.spawn(async move {
        "@
                + names.service
                + "::"@
                + tasks[i].method_name
                + "(handle, cancel_token, "@
                + crate::macros::spawn::context_args(tasks[i].extra_params.len())
                + ").await;
    });
    tasks.push(Box::new(task_handle));
}
"@,
        ),
{
    lemma_task_spawn(names.service, tasks[i]);
    let core = crate::macros::spawn::spawn_core(names, commands, crate::macros::spawn::receiver_setup(events, watches), crate::macros::spawn::service_loop(commands.len() > 0, events, watches));
    let builder = crate::text::filled(BUILDER_NAME@, seq![crate::macros::case::fragment(names.service)]);
    let bargs = seq![
        builder,
        names.service,
        crate::text::concat(tasks.map_values(|t: TaskView| crate::macros::spawn::builder_field(t))),
        crate::text::concat(tasks.map_values(|t: TaskView| crate::macros::spawn::service_spawn_method(builder, tasks, t))),
        crate::text::concat(tasks.map_values(|t: TaskView| crate::macros::spawn::builder_spawn_method(t))),
        names.handle,
        crate::text::concat(tasks.map_values(|t: TaskView| crate::macros::spawn::task_spawn(names.service, t))),
    ];
    let rest = crate::text::filled(SPAWN_BUILDER@, bargs);
    assert(crate::macros::spawn::any_context(tasks));
    crate::text::lemma_holds_ends(core, rest);
    let parts = tasks.map_values(|t: TaskView| crate::macros::spawn::task_spawn(names.service, t));
    crate::text::lemma_concat_holds(parts, i);
    lemma_text_spawn_builder(bargs);
    let spawns = crate::text::concat(parts);
    crate::text::lemma_holds_middle("self.inner.__rillet_spawn_core_with(&spawner);

        "@, spawns, "

        handle
"@);
    crate::text::lemma_holds_through(rest, "self.inner.__rillet_spawn_core_with(&spawner);

        "@ + spawns + "

        handle
"@, spawns);
    let part = "if let Some(("@
        + crate::macros::spawn::context_args(tasks[i].extra_params.len())
        + ",)) = self."@
        + crate::macros::case::fragment(tasks[i].method_name)
        + "_ctx {
    let handle = handle.clone();
    let cancel_token = cancel_token.clone();
    let task_handle = spawner.spawn(async move {
        "@
        + names.service
        + "::"@
        + tasks[i].method_name
        + "(handle, cancel_token, "@
        + crate::macros::spawn::context_args(tasks[i].extra_params.len())
        + ").await;
    });
    tasks.push(Box::new(task_handle));
}
"@;
    crate::text::lemma_holds_through(rest, spawns, part);
    crate::text::lemma_holds_through(core + rest, rest, part);
}

/// Where a task takes a context, the builder's `spawn_with` spawns the service
/// and then each task once, in their order, and returns the service's handle.
pub proof fn law_builder_spawns_each_task(
    names: NamesView,
    commands: Seq<CommandView>,
    events: Seq<EventHandlerView>,
    watches: Seq<WatchHandlerView>,
    tasks: Seq<TaskView>,
) -> (spawns: Seq<Seq<char>>)
    requires
        exists|i: int| 0 <= i < tasks.len() && (#[trigger] tasks[i]).extra_params.len() > 0,
    ensures
        crate::text::holds(
            crate::macros::spawn::spawn_impl(names, commands, events, watches, tasks),
            "pub fn spawn_with<__S: rillet::runtime::Spawner>(self, spawner: __S) -> "@
                + names.handle
                + " {
        let cancel_token = self.inner.__rillet_cancel_token.clone();
        let (handle, tasks) = self.inner.__rillet_spawn_core_with(&spawner);

        "@
                + crate::text::concat(spawns)
                + "

        handle
    }
}
"@,
        ),
        spawns.len() == tasks.len(),
        forall|i: int| 0 <= i < tasks.len() && tasks[i].extra_params.len() == 0 ==> #[trigger] spawns[i] == "{
    let handle = handle.clone();
    let cancel_token = cancel_token.clone();
    let task_handle = spawner.spawn(async move {
        "@
            + names.service
            + "::"@
            + tasks[i].method_name
            + "(handle, cancel_token).await;
    });
    tasks.push(Box::new(task_handle));
}
"@,
        forall|i: int| 0 <= i < tasks.len() && tasks[i].extra_params.len() > 0 ==> #[trigger] spawns[i] == "if let Some(("@
            + crate::macros::spawn::context_args(tasks[i].extra_params.len())
            + ",)) = self."@
            + crate::macros::case::fragment(tasks[i].method_name)
            + "_ctx {
    let handle = handle.clone();
    let cancel_token = cancel_token.clone();
    let task_handle = spawner.spawn(async move {
        "@
            + names.service
            + "::"@
            + tasks[i].method_name
            + "(handle, cancel_token, "@
            + crate::macros::spawn::context_args(tasks[i].extra_params.len())
            + ").await;
    });
    tasks.push(Box::new(task_handle));
}
"@,
{
    let core = crate::macros::spawn::spawn_core(names, commands, crate::macros::spawn::receiver_setup(events, watches), crate::macros::spawn::service_loop(commands.len() > 0, events, watches));
    let builder = crate::text::filled(BUILDER_NAME@, seq![crate::macros::case::fragment(names.service)]);
    let bargs = seq![
        builder,
        names.service,
        crate::text::concat(tasks.map_values(|t: TaskView| crate::macros::spawn::builder_field(t))),
        crate::text::concat(tasks.map_values(|t: TaskView| crate::macros::spawn::service_spawn_method(builder, tasks, t))),
        crate::text::concat(tasks.map_values(|t: TaskView| crate::macros::spawn::builder_spawn_method(t))),
        names.handle,
        crate::text::concat(tasks.map_values(|t: TaskView| crate::macros::spawn::task_spawn(names.service, t))),
    ];
    let rest = crate::text::filled(SPAWN_BUILDER@, bargs);
    assert(crate::macros::spawn::any_context(tasks));
    crate::text::lemma_holds_ends(core, rest);
    let spawns = tasks.map_values(|t: TaskView| crate::macros::spawn::task_spawn(names.service, t));
    lemma_text_spawn_builder(bargs);
    let part = "pub fn spawn_with<__S: rillet::runtime::Spawner>(self, spawner: __S) -> "@
        + names.handle
        + " {
        let cancel_token = self.inner.__rillet_cancel_token.clone();
        let (handle, tasks) = self.inner.__rillet_spawn_core_with(&spawner);

        "@
        + crate::text::concat(spawns)
        + "

        handle
    }
}
"@;
    crate::text::lemma_holds_through(core + rest, rest, part);
    assert forall|i: int| 0 <= i < tasks.len() && tasks[i].extra_params.len() == 0 implies #[trigger] spawns[i] == "{
    let handle = handle.clone();
    let cancel_token = cancel_token.clone();
    let task_handle = spawner.spawn(async move {
        "@
        + names.service
        + "::"@
        + tasks[i].method_name
        + "(handle, cancel_token).await;
    });
    tasks.push(Box::new(task_handle));
}
"@ by {
        lemma_handle_task(names.service, tasks[i].method_name);
    }
    assert forall|i: int| 0 <= i < tasks.len() && tasks[i].extra_params.len() > 0 implies #[trigger] spawns[i] == "if let Some(("@
        + crate::macros::spawn::context_args(tasks[i].extra_params.len())
        + ",)) = self."@
        + crate::macros::case::fragment(tasks[i].method_name)
        + "_ctx {
    let handle = handle.clone();
    let cancel_token = cancel_token.clone();
    let task_handle = spawner.spawn(async move {
        "@
        + names.service
        + "::"@
        + tasks[i].method_name
        + "(handle, cancel_token, "@
        + crate::macros::spawn::context_args(tasks[i].extra_params.len())
        + ").await;
    });
    tasks.push(Box::new(task_handle));
}
"@ by {
        lemma_task_spawn(names.service, tasks[i]);
    }
    spawns
}

/// The builder has a field for every task's context.
pub proof fn law_builder_keeps_each_context(
    names: NamesView,
    commands: Seq<CommandView>,
    events: Seq<EventHandlerView>,
    watches: Seq<WatchHandlerView>,
    tasks: Seq<TaskView>,
    i: int,
)
    requires
        0 <= i < tasks.len(),
        tasks[i].extra_params.len() > 0,
    ensures
        crate::text::holds(
            crate::macros::spawn::spawn_impl(names, commands, events, watches, tasks),
            crate::macros::case::fragment(tasks[i].method_name)
                + "_ctx: Option<("@
                + crate::macros::commands::param_types(tasks[i].extra_params)
                + ",)>,
"@,
        ),
{
    let core = crate::macros::spawn::spawn_core(names, commands, crate::macros::spawn::receiver_setup(events, watches), crate::macros::spawn::service_loop(commands.len() > 0, events, watches));
    let builder = crate::text::filled(BUILDER_NAME@, seq![crate::macros::case::fragment(names.service)]);
    let bargs = seq![
        builder,
        names.service,
        crate::text::concat(tasks.map_values(|t: TaskView| crate::macros::spawn::builder_field(t))),
        crate::text::concat(tasks.map_values(|t: TaskView| crate::macros::spawn::service_spawn_method(builder, tasks, t))),
        crate::text::concat(tasks.map_values(|t: TaskView| crate::macros::spawn::builder_spawn_method(t))),
        names.handle,
        crate::text::concat(tasks.map_values(|t: TaskView| crate::macros::spawn::task_spawn(names.service, t))),
    ];
    let rest = crate::text::filled(SPAWN_BUILDER@, bargs);
    assert(crate::macros::spawn::any_context(tasks));
    crate::text::lemma_holds_ends(core, rest);
    let targs = seq![
        crate::macros::case::fragment(tasks[i].method_name),
        crate::macros::commands::param_types(tasks[i].extra_params),
    ];
    lemma_text_builder_field(targs);
    let parts = tasks.map_values(|t: TaskView| crate::macros::spawn::builder_field(t));
    crate::text::lemma_concat_holds(parts, i);
    lemma_text_spawn_builder(bargs);
    let all = crate::text::concat(parts);
    crate::text::lemma_holds_middle(",
    "@, all, "
}

impl "@);
    crate::text::lemma_holds_through(rest, ",
    "@ + all + "
}

impl "@, all);
    crate::text::lemma_holds_through(rest, all, parts[i]);
    let part = crate::macros::case::fragment(tasks[i].method_name)
        + "_ctx: Option<("@
        + crate::macros::commands::param_types(tasks[i].extra_params)
        + ",)>,
"@;
    crate::text::lemma_holds_through(core + rest, rest, part);
}

/// For every task with a context the service has a method that takes the
/// context and returns the builder over the service with this context.
pub proof fn law_service_takes_each_context(
    names: NamesView,
    commands: Seq<CommandView>,
    events: Seq<EventHandlerView>,
    watches: Seq<WatchHandlerView>,
    tasks: Seq<TaskView>,
    i: int,
)
    requires
        0 <= i < tasks.len(),
        tasks[i].extra_params.len() > 0,
    ensures
        crate::text::holds(
            crate::macros::spawn::spawn_impl(names, commands, events, watches, tasks),
            "pub fn spawn_"@
                + crate::macros::case::fragment(tasks[i].method_name)
                + "(self, "@
                + crate::macros::commands::param_decls(tasks[i].extra_params)
                + ") -> "@
                + ("__"@ + crate::macros::case::fragment(names.service) + "Builder"@)
                + " {
    "@
                + ("__"@ + crate::macros::case::fragment(names.service) + "Builder"@)
                + " {
        inner: self,
        "@
                + crate::macros::case::fragment(tasks[i].method_name)
                + "_ctx: Some(("@
                + crate::macros::commands::param_names(tasks[i].extra_params)
                + ",)),
        "@,
        ),
{
    let core = crate::macros::spawn::spawn_core(names, commands, crate::macros::spawn::receiver_setup(events, watches), crate::macros::spawn::service_loop(commands.len() > 0, events, watches));
    let builder = crate::text::filled(BUILDER_NAME@, seq![crate::macros::case::fragment(names.service)]);
    let nargs = seq![crate::macros::case::fragment(names.service)];
    lemma_text_builder_name(nargs);
    assert(builder == "__"@ + crate::macros::case::fragment(names.service) + "Builder"@);
    let bargs = seq![
        builder,
        names.service,
        crate::text::concat(tasks.map_values(|t: TaskView| crate::macros::spawn::builder_field(t))),
        crate::text::concat(tasks.map_values(|t: TaskView| crate::macros::spawn::service_spawn_method(builder, tasks, t))),
        crate::text::concat(tasks.map_values(|t: TaskView| crate::macros::spawn::builder_spawn_method(t))),
        names.handle,
        crate::text::concat(tasks.map_values(|t: TaskView| crate::macros::spawn::task_spawn(names.service, t))),
    ];
    let rest = crate::text::filled(SPAWN_BUILDER@, bargs);
    assert(crate::macros::spawn::any_context(tasks));
    crate::text::lemma_holds_ends(core, rest);
    let targs = seq![
        crate::macros::case::fragment(tasks[i].method_name),
        crate::macros::commands::param_decls(tasks[i].extra_params),
        builder,
        crate::macros::commands::param_names(tasks[i].extra_params),
        crate::text::concat(tasks.map_values(|t: TaskView| crate::macros::spawn::other_init(tasks[i].method_name, t))),
    ];
    lemma_text_service_spawn_method(targs);
    let parts = tasks.map_values(|t: TaskView| crate::macros::spawn::service_spawn_method(builder, tasks, t));
    crate::text::lemma_concat_holds(parts, i);
    lemma_text_spawn_builder(bargs);
    let all = crate::text::concat(parts);
    crate::text::lemma_holds_middle(" {
    "@, all, "
}

impl "@);
    crate::text::lemma_holds_through(rest, " {
    "@ + all + "
}

impl "@, all);
    crate::text::lemma_holds_through(rest, all, parts[i]);
    let part = "pub fn spawn_"@
        + crate::macros::case::fragment(tasks[i].method_name)
        + "(self, "@
        + crate::macros::commands::param_decls(tasks[i].extra_params)
        + ") -> "@
        + ("__"@ + crate::macros::case::fragment(names.service) + "Builder"@)
        + " {
    "@
        + ("__"@ + crate::macros::case::fragment(names.service) + "Builder"@)
        + " {
        inner: self,
        "@
        + crate::macros::case::fragment(tasks[i].method_name)
        + "_ctx: Some(("@
        + crate::macros::commands::param_names(tasks[i].extra_params)
        + ",)),
        "@;
    crate::text::lemma_holds_through(rest, parts[i], part);
    crate::text::lemma_holds_through(core + rest, rest, part);
}

/// For every task with a context the builder has a method that takes the
/// context, replaces the one it had and returns the builder.
pub proof fn law_builder_takes_each_context(
    names: NamesView,
    commands: Seq<CommandView>,
    events: Seq<EventHandlerView>,
    watches: Seq<WatchHandlerView>,
    tasks: Seq<TaskView>,
    i: int,
)
    requires
        0 <= i < tasks.len(),
        tasks[i].extra_params.len() > 0,
    ensures
        crate::text::holds(
            crate::macros::spawn::spawn_impl(names, commands, events, watches, tasks),
            "pub fn spawn_"@
                + crate::macros::case::fragment(tasks[i].method_name)
                + "(mut self, "@
                + crate::macros::commands::param_decls(tasks[i].extra_params)
                + ") -> Self {
    self."@
                + crate::macros::case::fragment(tasks[i].method_name)
                + "_ctx = Some(("@
                + crate::macros::commands::param_names(tasks[i].extra_params)
                + ",));
    self
}
"@,
        ),
{
    let core = crate::macros::spawn::spawn_core(names, commands, crate::macros::spawn::receiver_setup(events, watches), crate::macros::spawn::service_loop(commands.len() > 0, events, watches));
    let builder = crate::text::filled(BUILDER_NAME@, seq![crate::macros::case::fragment(names.service)]);
    let bargs = seq![
        builder,
        names.service,
        crate::text::concat(tasks.map_values(|t: TaskView| crate::macros::spawn::builder_field(t))),
        crate::text::concat(tasks.map_values(|t: TaskView| crate::macros::spawn::service_spawn_method(builder, tasks, t))),
        crate::text::concat(tasks.map_values(|t: TaskView| crate::macros::spawn::builder_spawn_method(t))),
        names.handle,
        crate::text::concat(tasks.map_values(|t: TaskView| crate::macros::spawn::task_spawn(names.service, t))),
    ];
    let rest = crate::text::filled(SPAWN_BUILDER@, bargs);
    assert(crate::macros::spawn::any_context(tasks));
    crate::text::lemma_holds_ends(core, rest);
    let targs = seq![
        crate::macros::case::fragment(tasks[i].method_name),
        crate::macros::commands::param_decls(tasks[i].extra_params),
        crate::macros::commands::param_names(tasks[i].extra_params),
    ];
    lemma_text_builder_spawn_method(targs);
    let parts = tasks.map_values(|t: TaskView| crate::macros::spawn::builder_spawn_method(t));
    crate::text::lemma_concat_holds(parts, i);
    lemma_text_spawn_builder(bargs);
    let all = crate::text::concat(parts);
    crate::text::lemma_holds_middle(" {
    "@, all, "

    /// Spawns"@);
    crate::text::lemma_holds_through(rest, " {
    "@ + all + "

    /// Spawns"@, all);
    crate::text::lemma_holds_through(rest, all, parts[i]);
    let part = "pub fn spawn_"@
        + crate::macros::case::fragment(tasks[i].method_name)
        + "(mut self, "@
        + crate::macros::commands::param_decls(tasks[i].extra_params)
        + ") -> Self {
    self."@
        + crate::macros::case::fragment(tasks[i].method_name)
        + "_ctx = Some(("@
        + crate::macros::commands::param_names(tasks[i].extra_params)
        + ",));
    self
}
"@;
    crate::text::lemma_holds_through(core + rest, rest, part);
}

/// The builder that a context's method returns has no other context yet.
pub proof fn law_other_contexts_start_empty(
    names: NamesView,
    commands: Seq<CommandView>,
    events: Seq<EventHandlerView>,
    watches: Seq<WatchHandlerView>,
    tasks: Seq<TaskView>,
    i: int,
    j: int,
) -> (others: Seq<char>)
    requires
        0 <= i < tasks.len(),
        0 <= j < tasks.len(),
        tasks[i].extra_params.len() > 0,
        tasks[j].extra_params.len() > 0,
        tasks[i].method_name != tasks[j].method_name,
    ensures
        crate::text::holds(
            crate::macros::spawn::spawn_impl(names, commands, events, watches, tasks),
            "inner: self,
        "@
                + crate::macros::case::fragment(tasks[i].method_name)
                + "_ctx: Some(("@
                + crate::macros::commands::param_names(tasks[i].extra_params)
                + ",)),
        "@
                + others
                + "
    }
}
"@,
        ),
        crate::text::holds(
            others,
            crate::macros::case::fragment(tasks[j].method_name)
                + "_ctx: None,
"@,
        ),
{
    let core = crate::macros::spawn::spawn_core(names, commands, crate::macros::spawn::receiver_setup(events, watches), crate::macros::spawn::service_loop(commands.len() > 0, events, watches));
    let builder = crate::text::filled(BUILDER_NAME@, seq![crate::macros::case::fragment(names.service)]);
    let bargs = seq![
        builder,
        names.service,
        crate::text::concat(tasks.map_values(|t: TaskView| crate::macros::spawn::builder_field(t))),
        crate::text::concat(tasks.map_values(|t: TaskView| crate::macros::spawn::service_spawn_method(builder, tasks, t))),
        crate::text::concat(tasks.map_values(|t: TaskView| crate::macros::spawn::builder_spawn_method(t))),
        names.handle,
        crate::text::concat(tasks.map_values(|t: TaskView| crate::macros::spawn::task_spawn(names.service, t))),
    ];
    let rest = crate::text::filled(SPAWN_BUILDER@, bargs);
    assert(crate::macros::spawn::any_context(tasks));
    crate::text::lemma_holds_ends(core, rest);
    let inits = tasks.map_values(|t: TaskView| crate::macros::spawn::other_init(tasks[i].method_name, t));
    let others = crate::text::concat(inits);
    crate::text::lemma_concat_holds(inits, j);
    let jargs = seq![crate::macros::case::fragment(tasks[j].method_name)];
    lemma_text_context_none(jargs);
    let targs = seq![
        crate::macros::case::fragment(tasks[i].method_name),
        crate::macros::commands::param_decls(tasks[i].extra_params),
        builder,
        crate::macros::commands::param_names(tasks[i].extra_params),
        others,
    ];
    lemma_text_service_spawn_method(targs);
    let parts = tasks.map_values(|t: TaskView| crate::macros::spawn::service_spawn_method(builder, tasks, t));
    crate::text::lemma_concat_holds(parts, i);
    lemma_text_spawn_builder(bargs);
    let all = crate::text::concat(parts);
    crate::text::lemma_holds_middle(" {
    "@, all, "
}

impl "@);
    crate::text::lemma_holds_through(rest, " {
    "@ + all + "
}

impl "@, all);
    crate::text::lemma_holds_through(rest, all, parts[i]);
    let part = "inner: self,
        "@
        + crate::macros::case::fragment(tasks[i].method_name)
        + "_ctx: Some(("@
        + crate::macros::commands::param_names(tasks[i].extra_params)
        + ",)),
        "@
        + others
        + "
    }
}
"@;
    crate::text::lemma_holds_through(rest, parts[i], part);
    crate::text::lemma_holds_through(core + rest, rest, part);
    others
}

/// Where a task takes a context, the builder is a struct around the service.
pub proof fn law_builder_holds_the_service(
    names: NamesView,
    commands: Seq<CommandView>,
    events: Seq<EventHandlerView>,
    watches: Seq<WatchHandlerView>,
    tasks: Seq<TaskView>,
)
    requires
        exists|i: int| 0 <= i < tasks.len() && (#[trigger] tasks[i]).extra_params.len() > 0,
    ensures
        crate::text::holds(
            crate::macros::spawn::spawn_impl(names, commands, events, watches, tasks),
            "#[doc(hidden)]
pub struct "@
                + ("__"@ + crate::macros::case::fragment(names.service) + "Builder"@)
                + " {
    inner: "@
                + names.service
                + ",
"@,
        ),
{
    let core = crate::macros::spawn::spawn_core(names, commands, crate::macros::spawn::receiver_setup(events, watches), crate::macros::spawn::service_loop(commands.len() > 0, events, watches));
    let builder = crate::text::filled(BUILDER_NAME@, seq![crate::macros::case::fragment(names.service)]);
    let bargs = seq![
        builder,
        names.service,
        crate::text::concat(tasks.map_values(|t: TaskView| crate::macros::spawn::builder_field(t))),
        crate::text::concat(tasks.map_values(|t: TaskView| crate::macros::spawn::service_spawn_method(builder, tasks, t))),
        crate::text::concat(tasks.map_values(|t: TaskView| crate::macros::spawn::builder_spawn_method(t))),
        names.handle,
        crate::text::concat(tasks.map_values(|t: TaskView| crate::macros::spawn::task_spawn(names.service, t))),
    ];
    let rest = crate::text::filled(SPAWN_BUILDER@, bargs);
    assert(crate::macros::spawn::any_context(tasks));
    crate::text::lemma_holds_ends(core, rest);
    let nargs = seq![crate::macros::case::fragment(names.service)];
    lemma_text_builder_name(nargs);
    assert(builder == "__"@ + crate::macros::case::fragment(names.service) + "Builder"@);
    lemma_text_spawn_builder(bargs);
    let part = "#[doc(hidden)]
pub struct "@ + ("__"@ + crate::macros::case::fragment(names.service) + "Builder"@) + " {
    inner: "@ + names.service + ",
"@;
    crate::text::lemma_holds_through(core + rest, rest, part);
}

/// What the text of `SPAWN_CORE` says, whatever fills it.
proof fn lemma_text_spawn_core(args: Seq<Seq<char>>)
    requires
        args.len() >= 8,
    ensures
        crate::text::holds(
            crate::text::filled(SPAWN_CORE@, args),
            "spawner.spawn(async move {
                "@
                + args[5]
                + "
                "@
                + args[7]
                + "
            });"@,
        ),
        crate::text::holds(
            crate::text::filled(SPAWN_CORE@, args),
            "self.__rillet_gauges();

        "@
                + args[4]
                + "

        let cancel_token"@,
        ),
        crate::text::holds(
            crate::text::filled(SPAWN_CORE@, args),
            "impl "@
                + args[0]
                + " {
    /// Spawns the service loop; the caller spawns the tasks.
    fn __rillet_spawn_core_with<__S: rillet::runtime::Spawner>(
        mut self,
        spawner: &__S,
    ) -> ("@
                + args[1]
                + ", rillet::runtime::Arc<rillet::runtime::TaskSet>) {
        let (cmd_tx, cmd_rx) =
            rillet::runtime::mpsc::bounded::<"@
                + args[2]
                + ">("@
                + args[0]
                + "::__RILLET_COMMAND_CAPACITY);

        let metrics = rillet::runtime::Arc::new(rillet::metrics::CommandMetrics::<"@
                + args[3]
                + ">::new());

        self.__rillet_wire_emitter();
        self.__rillet_seed_view();
        let __rillet_view = self.__rillet_view_slot_any();
        let __rillet_gauges = self.__rillet_gauges();

        "@
                + args[4]
                + "

        let cancel_token = self.__rillet_cancel_token.clone();
        let tasks = self.__rillet_tasks.clone();
"@,
        ),
        crate::text::holds(
            crate::text::filled(SPAWN_CORE@, args),
            "let tasks = self.__rillet_tasks.clone();
        "@
                + args[6]
                + "

        let state = rillet::runtime::Arc::new(rillet::runtime::RwLock::new(self));
        let state_clone = state.clone();

        {
            let cancel_token = cancel_token.clone();
            let metrics = metrics.clone();
            let main_loop_handle = spawner.spawn(async move {
                "@
                + args[5]
                + "
                "@
                + args[7]
                + "
            });
            tasks.push(Box::new(main_loop_handle));"@,
        ),
        crate::text::holds(
            crate::text::filled(SPAWN_CORE@, args),
            "        (
            "@
                + args[1]
                + " {
                state,
                cmd_tx,
                metrics,
                __rillet_view,
                __rillet_gauges,
                __rillet_cancel: cancel_token,
                __rillet_tasks: tasks.clone(),
            },
            tasks,
        )
    }
}
"@,
        ),
{
    reveal_strlit("impl $0 {
    /// Spawns the service loop; the caller spawns the tasks.
    fn __rillet_spawn_core_with<__S: rillet::runtime::Spawner>(
        mut self,
        spawner: &__S,
    ) -> ($1, rillet::runtime::Arc<rillet::runtime::TaskSet>) {
        let (cmd_tx, cmd_rx) =
            rillet::runtime::mpsc::bounded::<$2>($0::__RILLET_COMMAND_CAPACITY);

        let metrics = rillet::runtime::Arc::new(rillet::metrics::CommandMetrics::<$3>::new());

        self.__rillet_wire_emitter();
        self.__rillet_seed_view();
        let __rillet_view = self.__rillet_view_slot_any();
        let __rillet_gauges = self.__rillet_gauges();

        $4

        let cancel_token = self.__rillet_cancel_token.clone();
        let tasks = self.__rillet_tasks.clone();
        $6

        let state = rillet::runtime::Arc::new(rillet::runtime::RwLock::new(self));
        let state_clone = state.clone();

        {
            let cancel_token = cancel_token.clone();
            let metrics = metrics.clone();
            let main_loop_handle = spawner.spawn(async move {
                $5
                $7
            });
            tasks.push(Box::new(main_loop_handle));
        }

        (
            $1 {
                state,
                cmd_tx,
                metrics,
                __rillet_view,
                __rillet_gauges,
                __rillet_cancel: cancel_token,
                __rillet_tasks: tasks.clone(),
            },
            tasks,
        )
    }
}
");
    reveal_strlit("spawner.spawn(async move {
                ");
    reveal_strlit("
                ");
    reveal_strlit("
            });");
    let a = "spawner.spawn(async move {
                "@;
    let b = "
                "@;
    let c = "
            });"@;
    assert(SPAWN_CORE@.subrange(1039, 1119) =~= a
        + crate::text::hole(5)
        + b
        + crate::text::hole(7)
        + c);
    crate::text::lemma_reads2(SPAWN_CORE@, 1039, a, 5, b, 7, c, args);
    reveal_strlit("self.__rillet_gauges();

        ");
    reveal_strlit("

        let cancel_token");
    let a = "self.__rillet_gauges();

        "@;
    let b = "

        let cancel_token"@;
    assert(SPAWN_CORE@.subrange(612, 673) =~= a + crate::text::hole(4) + b);
    crate::text::lemma_reads1(SPAWN_CORE@, 612, a, 4, b, args);
    reveal_strlit("impl ");
    reveal_strlit(" {
    /// Spawns the service loop; the caller spawns the tasks.
    fn __rillet_spawn_core_with<__S: rillet::runtime::Spawner>(
        mut self,
        spawner: &__S,
    ) -> (");
    reveal_strlit(", rillet::runtime::Arc<rillet::runtime::TaskSet>) {
        let (cmd_tx, cmd_rx) =
            rillet::runtime::mpsc::bounded::<");
    reveal_strlit(">(");
    reveal_strlit("::__RILLET_COMMAND_CAPACITY);

        let metrics = rillet::runtime::Arc::new(rillet::metrics::CommandMetrics::<");
    reveal_strlit(">::new());

        self.__rillet_wire_emitter();
        self.__rillet_seed_view();
        let __rillet_view = self.__rillet_view_slot_any();
        let __rillet_gauges = self.__rillet_gauges();

        ");
    reveal_strlit("

        let cancel_token = self.__rillet_cancel_token.clone();
        let tasks = self.__rillet_tasks.clone();
");
    let a = "impl "@;
    let b = " {
    /// Spawns the service loop; the caller spawns the tasks.
    fn __rillet_spawn_core_with<__S: rillet::runtime::Spawner>(
        mut self,
        spawner: &__S,
    ) -> ("@;
    let c = ", rillet::runtime::Arc<rillet::runtime::TaskSet>) {
        let (cmd_tx, cmd_rx) =
            rillet::runtime::mpsc::bounded::<"@;
    let d = ">("@;
    let e = "::__RILLET_COMMAND_CAPACITY);

        let metrics = rillet::runtime::Arc::new(rillet::metrics::CommandMetrics::<"@;
    let f = ">::new());

        self.__rillet_wire_emitter();
        self.__rillet_seed_view();
        let __rillet_view = self.__rillet_view_slot_any();
        let __rillet_gauges = self.__rillet_gauges();

        "@;
    let g = "

        let cancel_token = self.__rillet_cancel_token.clone();
        let tasks = self.__rillet_tasks.clone();
"@;
    assert(SPAWN_CORE@.subrange(0, 761) =~= a
        + crate::text::hole(0)
        + b
        + crate::text::hole(1)
        + c
        + crate::text::hole(2)
        + d
        + crate::text::hole(0)
        + e
        + crate::text::hole(3)
        + f
        + crate::text::hole(4)
        + g);
    crate::text::lemma_reads6(SPAWN_CORE@, 0, a, 0, b, 1, c, 2, d, 0, e, 3, f, 4, g, args);
    reveal_strlit("let tasks = self.__rillet_tasks.clone();
        ");
    reveal_strlit("

        let state = rillet::runtime::Arc::new(rillet::runtime::RwLock::new(self));
        let state_clone = state.clone();

        {
            let cancel_token = cancel_token.clone();
            let metrics = metrics.clone();
            let main_loop_handle = spawner.spawn(async move {
                ");
    reveal_strlit("
            });
            tasks.push(Box::new(main_loop_handle));");
    let a = "let tasks = self.__rillet_tasks.clone();
        "@;
    let b = "

        let state = rillet::runtime::Arc::new(rillet::runtime::RwLock::new(self));
        let state_clone = state.clone();

        {
            let cancel_token = cancel_token.clone();
            let metrics = metrics.clone();
            let main_loop_handle = spawner.spawn(async move {
                "@;
    let c = "
                "@;
    let d = "
            });
            tasks.push(Box::new(main_loop_handle));"@;
    assert(SPAWN_CORE@.subrange(720, 1171) =~= a
        + crate::text::hole(6)
        + b
        + crate::text::hole(5)
        + c
        + crate::text::hole(7)
        + d);
    crate::text::lemma_reads3(SPAWN_CORE@, 720, a, 6, b, 5, c, 7, d, args);
    reveal_strlit("        (
            ");
    reveal_strlit(" {
                state,
                cmd_tx,
                metrics,
                __rillet_view,
                __rillet_gauges,
                __rillet_cancel: cancel_token,
                __rillet_tasks: tasks.clone(),
            },
            tasks,
        )
    }
}
");
    let a = "        (
            "@;
    let b = " {
                state,
                cmd_tx,
                metrics,
                __rillet_view,
                __rillet_gauges,
                __rillet_cancel: cancel_token,
                __rillet_tasks: tasks.clone(),
            },
            tasks,
        )
    }
}
"@;
    assert(SPAWN_CORE@.subrange(1183, 1492) =~= a + crate::text::hole(1) + b);
    crate::text::lemma_reads1(SPAWN_CORE@, 1183, a, 1, b, args);
}

/// What the text of `COMMAND_LOOP` says, whatever fills it.
proof fn lemma_text_command_loop(args: Seq<Seq<char>>)
    requires
        args.len() >= 7,
    ensures
        crate::text::holds(
            crate::text::filled(COMMAND_LOOP@, args),
            "result = cmd_fut => {
            match result {
                Ok(cmd) => {
                    "@
                + args[4]
                + "
                }
                Err(_) => {
                    __flow.close_commands();
                    "@
                + args[5]
                + "
                }
            }
        }
        "@,
        ),
        crate::text::holds(
            crate::text::filled(COMMAND_LOOP@, args),
            "_ = cancel_fut => {
            // Drain remaining commands before exit
            while let Ok(cmd) = cmd_rx.try_recv() {
                "@
                + args[4]
                + "
            }
            break;
        }
        "@,
        ),
        crate::text::holds(
            crate::text::filled(COMMAND_LOOP@, args),
            "let mut cancel_fut = std::pin::pin!(cancel_token.cancelled().fuse());
    "@
                + args[3]
                + "

    rillet::runtime::futures::select! {"@,
        ),
        crate::text::holds(
            crate::text::filled(COMMAND_LOOP@, args),
            "        }
        "@
                + args[6]
                + "
    }
"@,
        ),
        crate::text::holds(
            crate::text::filled(COMMAND_LOOP@, args),
            "    use rillet::runtime::FutureExt;

    "@
                + args[2]
                + "

"@,
        ),
        crate::text::holds(
            crate::text::filled(COMMAND_LOOP@, args),
            "rillet::runtime::futures::select! {
        _ = cancel_fut => {
            // Drain remaining commands before exit
            while let Ok(cmd) = cmd_rx.try_recv() {
                "@
                + args[4]
                + "
            }
            break;
        }
        result = cmd_fut => {
            match result {
                Ok(cmd) => {
                    "@
                + args[4]
                + "
                }
                Err(_) => {
                    __flow.close_commands();
                    "@
                + args[5]
                + "
                }
            }
        }
        "@
                + args[6]
                + "
    }
}
"@,
        ),
        crate::text::holds(
            crate::text::filled(COMMAND_LOOP@, args),
            "let mut __flow = rillet::runtime::LoopState::new("@
                + args[0]
                + ", "@
                + args[1]
                + ");
loop {
    use rillet::runtime::FutureExt;
"@,
        ),
{
    reveal_strlit("let state = state_clone;
let cmd_rx = cmd_rx;
let mut __flow = rillet::runtime::LoopState::new($0, $1);
loop {
    use rillet::runtime::FutureExt;

    $2

    let mut cancel_fut = std::pin::pin!(cancel_token.cancelled().fuse());
    $3

    rillet::runtime::futures::select! {
        _ = cancel_fut => {
            // Drain remaining commands before exit
            while let Ok(cmd) = cmd_rx.try_recv() {
                $4
            }
            break;
        }
        result = cmd_fut => {
            match result {
                Ok(cmd) => {
                    $4
                }
                Err(_) => {
                    __flow.close_commands();
                    $5
                }
            }
        }
        $6
    }
}
");
    reveal_strlit("result = cmd_fut => {
            match result {
                Ok(cmd) => {
                    ");
    reveal_strlit("
                }
                Err(_) => {
                    __flow.close_commands();
                    ");
    reveal_strlit("
                }
            }
        }
        ");
    let a = "result = cmd_fut => {
            match result {
                Ok(cmd) => {
                    "@;
    let b = "
                }
                Err(_) => {
                    __flow.close_commands();
                    "@;
    let c = "
                }
            }
        }
        "@;
    assert(COMMAND_LOOP@.subrange(480, 745) =~= a
        + crate::text::hole(4)
        + b
        + crate::text::hole(5)
        + c);
    crate::text::lemma_reads2(COMMAND_LOOP@, 480, a, 4, b, 5, c, args);
    reveal_strlit("_ = cancel_fut => {
            // Drain remaining commands before exit
            while let Ok(cmd) = cmd_rx.try_recv() {
                ");
    reveal_strlit("
            }
            break;
        }
        ");
    let a = "_ = cancel_fut => {
            // Drain remaining commands before exit
            while let Ok(cmd) = cmd_rx.try_recv() {
                "@;
    let b = "
            }
            break;
        }
        "@;
    assert(COMMAND_LOOP@.subrange(286, 480) =~= a + crate::text::hole(4) + b);
    crate::text::lemma_reads1(COMMAND_LOOP@, 286, a, 4, b, args);
    reveal_strlit("let mut cancel_fut = std::pin::pin!(cancel_token.cancelled().fuse());
    ");
    reveal_strlit("

    rillet::runtime::futures::select! {");
    let a = "let mut cancel_fut = std::pin::pin!(cancel_token.cancelled().fuse());
    "@;
    let b = "

    rillet::runtime::futures::select! {"@;
    assert(COMMAND_LOOP@.subrange(160, 277) =~= a + crate::text::hole(3) + b);
    crate::text::lemma_reads1(COMMAND_LOOP@, 160, a, 3, b, args);
    reveal_strlit("        }
        ");
    reveal_strlit("
    }
");
    let a = "        }
        "@;
    let b = "
    }
"@;
    assert(COMMAND_LOOP@.subrange(727, 754) =~= a + crate::text::hole(6) + b);
    crate::text::lemma_reads1(COMMAND_LOOP@, 727, a, 6, b, args);
    reveal_strlit("    use rillet::runtime::FutureExt;

    ");
    reveal_strlit("

");
    let a = "    use rillet::runtime::FutureExt;

    "@;
    let b = "

"@;
    assert(COMMAND_LOOP@.subrange(111, 156) =~= a + crate::text::hole(2) + b);
    crate::text::lemma_reads1(COMMAND_LOOP@, 111, a, 2, b, args);
    reveal_strlit("rillet::runtime::futures::select! {
        _ = cancel_fut => {
            // Drain remaining commands before exit
            while let Ok(cmd) = cmd_rx.try_recv() {
                ");
    reveal_strlit("
            }
            break;
        }
        result = cmd_fut => {
            match result {
                Ok(cmd) => {
                    ");
    reveal_strlit("
    }
}
");
    let a = "rillet::runtime::futures::select! {
        _ = cancel_fut => {
            // Drain remaining commands before exit
            while let Ok(cmd) = cmd_rx.try_recv() {
                "@;
    let b = "
            }
            break;
        }
        result = cmd_fut => {
            match result {
                Ok(cmd) => {
                    "@;
    let c = "
                }
                Err(_) => {
                    __flow.close_commands();
                    "@;
    let d = "
                }
            }
        }
        "@;
    let e = "
    }
}
"@;
    assert(COMMAND_LOOP@.subrange(242, 756) =~= a
        + crate::text::hole(4)
        + b
        + crate::text::hole(4)
        + c
        + crate::text::hole(5)
        + d
        + crate::text::hole(6)
        + e);
    crate::text::lemma_reads4(COMMAND_LOOP@, 242, a, 4, b, 4, c, 5, d, 6, e, args);
    reveal_strlit("let mut __flow = rillet::runtime::LoopState::new(");
    reveal_strlit(", ");
    reveal_strlit(");
loop {
    use rillet::runtime::FutureExt;
");
    let a = "let mut __flow = rillet::runtime::LoopState::new("@;
    let b = ", "@;
    let c = ");
loop {
    use rillet::runtime::FutureExt;
"@;
    assert(COMMAND_LOOP@.subrange(46, 147) =~= a
        + crate::text::hole(0)
        + b
        + crate::text::hole(1)
        + c);
    crate::text::lemma_reads2(COMMAND_LOOP@, 46, a, 0, b, 1, c, args);
}

/// What the text of `INPUT_LOOP` says, whatever fills it.
proof fn lemma_text_input_loop(args: Seq<Seq<char>>)
    requires
        args.len() >= 7,
    ensures
        crate::text::holds(
            crate::text::filled(INPUT_LOOP@, args),
            "let mut cancel_fut = std::pin::pin!(cancel_token.cancelled().fuse());
    "@
                + args[3]
                + "

    rillet::runtime::futures::select! {
        _ = cancel_fut => break,
        result = cmd_fut => {
            if result.is_err() {
                __flow.close_commands();
                "@
                + args[5]
                + "
            }
        }
        "@,
        ),
        crate::text::holds(
            crate::text::filled(INPUT_LOOP@, args),
            "        }
        "@
                + args[6]
                + "
    }
"@,
        ),
        crate::text::holds(
            crate::text::filled(INPUT_LOOP@, args),
            "    use rillet::runtime::FutureExt;

    "@
                + args[2]
                + "

"@,
        ),
        crate::text::holds(
            crate::text::filled(INPUT_LOOP@, args),
            "rillet::runtime::futures::select! {
        _ = cancel_fut => break,
        result = cmd_fut => {
            if result.is_err() {
                __flow.close_commands();
                "@
                + args[5]
                + "
            }
        }
        "@
                + args[6]
                + "
    }
}
"@,
        ),
        crate::text::holds(
            crate::text::filled(INPUT_LOOP@, args),
            "let mut __flow = rillet::runtime::LoopState::new("@
                + args[0]
                + ", "@
                + args[1]
                + ");
loop {
    use rillet::runtime::FutureExt;
"@,
        ),
{
    reveal_strlit("let state = state_clone;
let cmd_rx = cmd_rx;
let mut __flow = rillet::runtime::LoopState::new($0, $1);
loop {
    use rillet::runtime::FutureExt;

    $2

    let mut cancel_fut = std::pin::pin!(cancel_token.cancelled().fuse());
    $3

    rillet::runtime::futures::select! {
        _ = cancel_fut => break,
        result = cmd_fut => {
            if result.is_err() {
                __flow.close_commands();
                $5
            }
        }
        $6
    }
}
");
    reveal_strlit("let mut cancel_fut = std::pin::pin!(cancel_token.cancelled().fuse());
    ");
    reveal_strlit("

    rillet::runtime::futures::select! {
        _ = cancel_fut => break,
        result = cmd_fut => {
            if result.is_err() {
                __flow.close_commands();
                ");
    reveal_strlit("
            }
        }
        ");
    let a = "let mut cancel_fut = std::pin::pin!(cancel_token.cancelled().fuse());
    "@;
    let b = "

    rillet::runtime::futures::select! {
        _ = cancel_fut => break,
        result = cmd_fut => {
            if result.is_err() {
                __flow.close_commands();
                "@;
    let c = "
            }
        }
        "@;
    assert(INPUT_LOOP@.subrange(160, 466) =~= a
        + crate::text::hole(3)
        + b
        + crate::text::hole(5)
        + c);
    crate::text::lemma_reads2(INPUT_LOOP@, 160, a, 3, b, 5, c, args);
    reveal_strlit("        }
        ");
    reveal_strlit("
    }
");
    let a = "        }
        "@;
    let b = "
    }
"@;
    assert(INPUT_LOOP@.subrange(448, 475) =~= a + crate::text::hole(6) + b);
    crate::text::lemma_reads1(INPUT_LOOP@, 448, a, 6, b, args);
    reveal_strlit("    use rillet::runtime::FutureExt;

    ");
    reveal_strlit("

");
    let a = "    use rillet::runtime::FutureExt;

    "@;
    let b = "

"@;
    assert(INPUT_LOOP@.subrange(111, 156) =~= a + crate::text::hole(2) + b);
    crate::text::lemma_reads1(INPUT_LOOP@, 111, a, 2, b, args);
    reveal_strlit("rillet::runtime::futures::select! {
        _ = cancel_fut => break,
        result = cmd_fut => {
            if result.is_err() {
                __flow.close_commands();
                ");
    reveal_strlit("
    }
}
");
    let a = "rillet::runtime::futures::select! {
        _ = cancel_fut => break,
        result = cmd_fut => {
            if result.is_err() {
                __flow.close_commands();
                "@;
    let b = "
            }
        }
        "@;
    let c = "
    }
}
"@;
    assert(INPUT_LOOP@.subrange(242, 477) =~= a
        + crate::text::hole(5)
        + b
        + crate::text::hole(6)
        + c);
    crate::text::lemma_reads2(INPUT_LOOP@, 242, a, 5, b, 6, c, args);
    reveal_strlit("let mut __flow = rillet::runtime::LoopState::new(");
    reveal_strlit(", ");
    reveal_strlit(");
loop {
    use rillet::runtime::FutureExt;
");
    let a = "let mut __flow = rillet::runtime::LoopState::new("@;
    let b = ", "@;
    let c = ");
loop {
    use rillet::runtime::FutureExt;
"@;
    assert(INPUT_LOOP@.subrange(46, 147) =~= a
        + crate::text::hole(0)
        + b
        + crate::text::hole(1)
        + c);
    crate::text::lemma_reads2(INPUT_LOOP@, 46, a, 0, b, 1, c, args);
}

/// What the text of `USIZE` says, whatever fills it.
proof fn lemma_text_usize(args: Seq<Seq<char>>)
    requires
        args.len() >= 1,
    ensures
        crate::text::filled(USIZE@, args) == args[0] + "usize"@,
{
    reveal_strlit("$0usize");
    reveal_strlit("usize");
    let a = Seq::<char>::empty();
    let b = "usize"@;
    assert(USIZE@ =~= a + crate::text::hole(0) + b);
    crate::text::lemma_fills1(a, 0, b, args);
    assert(crate::text::filled(USIZE@, args) =~= args[0] + "usize"@);
}

/// What the text of `EVENT_ARM` says, whatever fills it.
proof fn lemma_text_event_arm(args: Seq<Seq<char>>)
    requires
        args.len() >= 4,
    ensures
        crate::text::filled(EVENT_ARM@, args) == "result = "@
            + args[0]
            + "_rx_fut => {
    match result {
        Some(event) => {
            {
                let mut s = state.write().unwrap();
                s."@
            + args[1]
            + "(event);
                s.__rillet_publish_view();
                s.__rillet_ops.flush_conclusions();
            }
            "@
            + args[3]
            + "
        }
        None => {
            __flow.close_source("@
            + args[2]
            + ");
            "@
            + args[3]
            + "
        }
    }
}
"@,
{
    reveal_strlit("result = $0_rx_fut => {
    match result {
        Some(event) => {
            {
                let mut s = state.write().unwrap();
                s.$1(event);
                s.__rillet_publish_view();
                s.__rillet_ops.flush_conclusions();
            }
            $3
        }
        None => {
            __flow.close_source($2);
            $3
        }
    }
}
");
    reveal_strlit("result = ");
    reveal_strlit("_rx_fut => {
    match result {
        Some(event) => {
            {
                let mut s = state.write().unwrap();
                s.");
    reveal_strlit("(event);
                s.__rillet_publish_view();
                s.__rillet_ops.flush_conclusions();
            }
            ");
    reveal_strlit("
        }
        None => {
            __flow.close_source(");
    reveal_strlit(");
            ");
    reveal_strlit("
        }
    }
}
");
    let a = "result = "@;
    let b = "_rx_fut => {
    match result {
        Some(event) => {
            {
                let mut s = state.write().unwrap();
                s."@;
    let c = "(event);
                s.__rillet_publish_view();
                s.__rillet_ops.flush_conclusions();
            }
            "@;
    let d = "
        }
        None => {
            __flow.close_source("@;
    let e = ");
            "@;
    let f = "
        }
    }
}
"@;
    assert(EVENT_ARM@ =~= a
        + crate::text::hole(0)
        + b
        + crate::text::hole(1)
        + c
        + crate::text::hole(3)
        + d
        + crate::text::hole(2)
        + e
        + crate::text::hole(3)
        + f);
    crate::text::lemma_fills5(a, 0, b, 1, c, 3, d, 2, e, 3, f, args);
}

/// What the text of `WATCH_ARM` says, whatever fills it.
proof fn lemma_text_watch_arm(args: Seq<Seq<char>>)
    requires
        args.len() >= 3,
    ensures
        crate::text::filled(WATCH_ARM@, args) == "view = "@
            + args[0]
            + "_rx_fut => {
    {
        let mut s = state.write().unwrap();
        s."@
            + args[1]
            + "(view);
        s.__rillet_publish_view();
        s.__rillet_ops.flush_conclusions();
    }
    "@
            + args[2]
            + "
}
"@,
{
    reveal_strlit("view = $0_rx_fut => {
    {
        let mut s = state.write().unwrap();
        s.$1(view);
        s.__rillet_publish_view();
        s.__rillet_ops.flush_conclusions();
    }
    $2
}
");
    reveal_strlit("view = ");
    reveal_strlit("_rx_fut => {
    {
        let mut s = state.write().unwrap();
        s.");
    reveal_strlit("(view);
        s.__rillet_publish_view();
        s.__rillet_ops.flush_conclusions();
    }
    ");
    reveal_strlit("
}
");
    let a = "view = "@;
    let b = "_rx_fut => {
    {
        let mut s = state.write().unwrap();
        s."@;
    let c = "(view);
        s.__rillet_publish_view();
        s.__rillet_ops.flush_conclusions();
    }
    "@;
    let d = "
}
"@;
    assert(WATCH_ARM@ =~= a
        + crate::text::hole(0)
        + b
        + crate::text::hole(1)
        + c
        + crate::text::hole(2)
        + d);
    crate::text::lemma_fills3(a, 0, b, 1, c, 2, d, args);
}

/// What the text of `EVENT_FUTURE` says, whatever fills it.
proof fn lemma_text_event_future(args: Seq<Seq<char>>)
    requires
        args.len() >= 2,
    ensures
        crate::text::filled(EVENT_FUTURE@, args) == "let "@
            + args[0]
            + "_closed = !__flow.source_open("@
            + args[1]
            + ");
let mut "@
            + args[0]
            + "_rx_fut = std::pin::pin!(
    async {
        if "@
            + args[0]
            + "_closed {
            std::future::pending().await
        } else {
            "@
            + args[0]
            + "_rx.next().await
        }
    }
    .fuse()
);
"@,
{
    reveal_strlit("let $0_closed = !__flow.source_open($1);
let mut $0_rx_fut = std::pin::pin!(
    async {
        if $0_closed {
            std::future::pending().await
        } else {
            $0_rx.next().await
        }
    }
    .fuse()
);
");
    reveal_strlit("let ");
    reveal_strlit("_closed = !__flow.source_open(");
    reveal_strlit(");
let mut ");
    reveal_strlit("_rx_fut = std::pin::pin!(
    async {
        if ");
    reveal_strlit("_closed {
            std::future::pending().await
        } else {
            ");
    reveal_strlit("_rx.next().await
        }
    }
    .fuse()
);
");
    let a = "let "@;
    let b = "_closed = !__flow.source_open("@;
    let c = ");
let mut "@;
    let d = "_rx_fut = std::pin::pin!(
    async {
        if "@;
    let e = "_closed {
            std::future::pending().await
        } else {
            "@;
    let f = "_rx.next().await
        }
    }
    .fuse()
);
"@;
    assert(EVENT_FUTURE@ =~= a
        + crate::text::hole(0)
        + b
        + crate::text::hole(1)
        + c
        + crate::text::hole(0)
        + d
        + crate::text::hole(0)
        + e
        + crate::text::hole(0)
        + f);
    crate::text::lemma_fills5(a, 0, b, 1, c, 0, d, 0, e, 0, f, args);
}

/// What the text of `WATCH_FUTURE` says, whatever fills it.
proof fn lemma_text_watch_future(args: Seq<Seq<char>>)
    requires
        args.len() >= 1,
    ensures
        crate::text::filled(WATCH_FUTURE@, args) == "let mut "@
            + args[0]
            + "_rx_fut = std::pin::pin!("@
            + args[0]
            + "_rx.changed().fuse());
"@,
{
    reveal_strlit("let mut $0_rx_fut = std::pin::pin!($0_rx.changed().fuse());
");
    reveal_strlit("let mut ");
    reveal_strlit("_rx_fut = std::pin::pin!(");
    reveal_strlit("_rx.changed().fuse());
");
    let a = "let mut "@;
    let b = "_rx_fut = std::pin::pin!("@;
    let c = "_rx.changed().fuse());
"@;
    assert(WATCH_FUTURE@ =~= a + crate::text::hole(0) + b + crate::text::hole(0) + c);
    crate::text::lemma_fills2(a, 0, b, 0, c, args);
}

/// What the text of `EVENT_SETUP` says, whatever fills it.
proof fn lemma_text_event_setup(args: Seq<Seq<char>>)
    requires
        args.len() >= 3,
    ensures
        crate::text::filled(EVENT_SETUP@, args) == "let mut "@
            + args[0]
            + "_rx = self."@
            + args[1]
            + "."@
            + args[2]
            + "();
"@,
{
    reveal_strlit("let mut $0_rx = self.$1.$2();
");
    reveal_strlit("let mut ");
    reveal_strlit("_rx = self.");
    reveal_strlit(".");
    reveal_strlit("();
");
    let a = "let mut "@;
    let b = "_rx = self."@;
    let c = "."@;
    let d = "();
"@;
    assert(EVENT_SETUP@ =~= a
        + crate::text::hole(0)
        + b
        + crate::text::hole(1)
        + c
        + crate::text::hole(2)
        + d);
    crate::text::lemma_fills3(a, 0, b, 1, c, 2, d, args);
}

/// What the text of `WATCH_SETUP` says, whatever fills it.
proof fn lemma_text_watch_setup(args: Seq<Seq<char>>)
    requires
        args.len() >= 2,
    ensures
        crate::text::filled(WATCH_SETUP@, args) == "let mut "@
            + args[0]
            + "_rx = self."@
            + args[1]
            + ".watch_view();
"@,
{
    reveal_strlit("let mut $0_rx = self.$1.watch_view();
");
    reveal_strlit("let mut ");
    reveal_strlit("_rx = self.");
    reveal_strlit(".watch_view();
");
    let a = "let mut "@;
    let b = "_rx = self."@;
    let c = ".watch_view();
"@;
    assert(WATCH_SETUP@ =~= a + crate::text::hole(0) + b + crate::text::hole(1) + c);
    crate::text::lemma_fills2(a, 0, b, 1, c, args);
}

/// What the text of `HANDLE_TASK` says, whatever fills it.
proof fn lemma_text_handle_task(args: Seq<Seq<char>>)
    requires
        args.len() >= 2,
    ensures
        crate::text::filled(HANDLE_TASK@, args) == "{
    let handle = handle.clone();
    let cancel_token = cancel_token.clone();
    let task_handle = spawner.spawn(async move {
        "@
            + args[0]
            + "::"@
            + args[1]
            + "(handle, cancel_token).await;
    });
    tasks.push(Box::new(task_handle));
}
"@,
{
    reveal_strlit("{
    let handle = handle.clone();
    let cancel_token = cancel_token.clone();
    let task_handle = spawner.spawn(async move {
        $0::$1(handle, cancel_token).await;
    });
    tasks.push(Box::new(task_handle));
}
");
    reveal_strlit("{
    let handle = handle.clone();
    let cancel_token = cancel_token.clone();
    let task_handle = spawner.spawn(async move {
        ");
    reveal_strlit("::");
    reveal_strlit("(handle, cancel_token).await;
    });
    tasks.push(Box::new(task_handle));
}
");
    let a = "{
    let handle = handle.clone();
    let cancel_token = cancel_token.clone();
    let task_handle = spawner.spawn(async move {
        "@;
    let b = "::"@;
    let c = "(handle, cancel_token).await;
    });
    tasks.push(Box::new(task_handle));
}
"@;
    assert(HANDLE_TASK@ =~= a + crate::text::hole(0) + b + crate::text::hole(1) + c);
    crate::text::lemma_fills2(a, 0, b, 1, c, args);
}

/// What the text of `SPAWN_SIMPLE` says, whatever fills it.
proof fn lemma_text_spawn_simple(args: Seq<Seq<char>>)
    requires
        args.len() >= 4,
    ensures
        crate::text::holds(
            crate::text::filled(SPAWN_SIMPLE@, args),
            "pub fn spawn_with<__S: rillet::runtime::Spawner>(self, spawner: __S) -> "@
                + args[1]
                + " {
        "@
                + args[2]
                + "

        "@
                + args[3]
                + "

        handle
    }
}
"@,
        ),
        crate::text::holds(
            crate::text::filled(SPAWN_SIMPLE@, args),
            "    pub fn spawn(self) -> "@
                + args[1]
                + " {
        self.spawn_with(rillet::runtime::SmolSpawner)
    }

    /// Spawns this service on the given spawner and returns its
    /// handle.
    ///
    /// The service runs until cancelled.
    pub fn spawn_with<__S: rillet::runtime::Spawner>(self, spawner: __S) -> "@
                + args[1]
                + " {
"@,
        ),
        crate::text::holds(
            crate::text::filled(SPAWN_SIMPLE@, args),
            "

        "@
                + args[3]
                + "

        handle
"@,
        ),
{
    reveal_strlit("impl $0 {
    /// Spawns this service on the default [`SmolSpawner`](rillet::SmolSpawner)
    /// and returns its handle.
    ///
    /// The service runs until cancelled.
    pub fn spawn(self) -> $1 {
        self.spawn_with(rillet::runtime::SmolSpawner)
    }

    /// Spawns this service on the given spawner and returns its
    /// handle.
    ///
    /// The service runs until cancelled.
    pub fn spawn_with<__S: rillet::runtime::Spawner>(self, spawner: __S) -> $1 {
        $2

        $3

        handle
    }
}
");
    reveal_strlit("pub fn spawn_with<__S: rillet::runtime::Spawner>(self, spawner: __S) -> ");
    reveal_strlit(" {
        ");
    reveal_strlit("

        ");
    reveal_strlit("

        handle
    }
}
");
    let a = "pub fn spawn_with<__S: rillet::runtime::Spawner>(self, spawner: __S) -> "@;
    let b = " {
        "@;
    let c = "

        "@;
    let d = "

        handle
    }
}
"@;
    assert(SPAWN_SIMPLE@.subrange(399, 523) =~= a
        + crate::text::hole(1)
        + b
        + crate::text::hole(2)
        + c
        + crate::text::hole(3)
        + d);
    crate::text::lemma_reads3(SPAWN_SIMPLE@, 399, a, 1, b, 2, c, 3, d, args);
    reveal_strlit("    pub fn spawn(self) -> ");
    reveal_strlit(" {
        self.spawn_with(rillet::runtime::SmolSpawner)
    }

    /// Spawns this service on the given spawner and returns its
    /// handle.
    ///
    /// The service runs until cancelled.
    pub fn spawn_with<__S: rillet::runtime::Spawner>(self, spawner: __S) -> ");
    reveal_strlit(" {
");
    let a = "    pub fn spawn(self) -> "@;
    let b = " {
        self.spawn_with(rillet::runtime::SmolSpawner)
    }

    /// Spawns this service on the given spawner and returns its
    /// handle.
    ///
    /// The service runs until cancelled.
    pub fn spawn_with<__S: rillet::runtime::Spawner>(self, spawner: __S) -> "@;
    let c = " {
"@;
    assert(SPAWN_SIMPLE@.subrange(172, 476) =~= a
        + crate::text::hole(1)
        + b
        + crate::text::hole(1)
        + c);
    crate::text::lemma_reads2(SPAWN_SIMPLE@, 172, a, 1, b, 1, c, args);
    reveal_strlit("

        handle
");
    let a = "

        "@;
    let b = "

        handle
"@;
    assert(SPAWN_SIMPLE@.subrange(486, 515) =~= a + crate::text::hole(3) + b);
    crate::text::lemma_reads1(SPAWN_SIMPLE@, 486, a, 3, b, args);
}

/// What the text of `SPAWN_BUILDER` says, whatever fills it.
proof fn lemma_text_spawn_builder(args: Seq<Seq<char>>)
    requires
        args.len() >= 7,
    ensures
        crate::text::holds(
            crate::text::filled(SPAWN_BUILDER@, args),
            "    pub fn spawn(self) -> "@
                + args[5]
                + " {
        self.spawn_with(rillet::runtime::SmolSpawner)
    }

    /// Spawns this service on the given spawner and returns its
    /// handle.
    ///
    /// The service runs until cancelled.
    pub fn spawn_with<__S: rillet::runtime::Spawner>(self, spawner: __S) -> "@
                + args[5]
                + " {
"@,
        ),
        crate::text::holds(
            crate::text::filled(SPAWN_BUILDER@, args),
            "self.inner.__rillet_spawn_core_with(&spawner);

        "@
                + args[6]
                + "

        handle
"@,
        ),
        crate::text::holds(
            crate::text::filled(SPAWN_BUILDER@, args),
            "pub fn spawn_with<__S: rillet::runtime::Spawner>(self, spawner: __S) -> "@
                + args[5]
                + " {
        let cancel_token = self.inner.__rillet_cancel_token.clone();
        let (handle, tasks) = self.inner.__rillet_spawn_core_with(&spawner);

        "@
                + args[6]
                + "

        handle
    }
}
"@,
        ),
        crate::text::holds(
            crate::text::filled(SPAWN_BUILDER@, args),
            ",
    "@
                + args[2]
                + "
}

impl "@,
        ),
        crate::text::holds(
            crate::text::filled(SPAWN_BUILDER@, args),
            " {
    "@
                + args[3]
                + "
}

impl "@,
        ),
        crate::text::holds(
            crate::text::filled(SPAWN_BUILDER@, args),
            " {
    "@
                + args[4]
                + "

    /// Spawns"@,
        ),
        crate::text::holds(
            crate::text::filled(SPAWN_BUILDER@, args),
            "#[doc(hidden)]
pub struct "@
                + args[0]
                + " {
    inner: "@
                + args[1]
                + ",
"@,
        ),
{
    reveal_strlit("#[doc(hidden)]
pub struct $0 {
    inner: $1,
    $2
}

impl $1 {
    $3
}

impl $0 {
    $4

    /// Spawns this service on the default [`SmolSpawner`](rillet::SmolSpawner)
    /// and returns its handle.
    ///
    /// The service runs until cancelled.
    pub fn spawn(self) -> $5 {
        self.spawn_with(rillet::runtime::SmolSpawner)
    }

    /// Spawns this service on the given spawner and returns its
    /// handle.
    ///
    /// The service runs until cancelled.
    pub fn spawn_with<__S: rillet::runtime::Spawner>(self, spawner: __S) -> $5 {
        let cancel_token = self.inner.__rillet_cancel_token.clone();
        let (handle, tasks) = self.inner.__rillet_spawn_core_with(&spawner);

        $6

        handle
    }
}
");
    reveal_strlit("    pub fn spawn(self) -> ");
    reveal_strlit(" {
        self.spawn_with(rillet::runtime::SmolSpawner)
    }

    /// Spawns this service on the given spawner and returns its
    /// handle.
    ///
    /// The service runs until cancelled.
    pub fn spawn_with<__S: rillet::runtime::Spawner>(self, spawner: __S) -> ");
    reveal_strlit(" {
");
    let a = "    pub fn spawn(self) -> "@;
    let b = " {
        self.spawn_with(rillet::runtime::SmolSpawner)
    }

    /// Spawns this service on the given spawner and returns its
    /// handle.
    ///
    /// The service runs until cancelled.
    pub fn spawn_with<__S: rillet::runtime::Spawner>(self, spawner: __S) -> "@;
    let c = " {
"@;
    assert(SPAWN_BUILDER@.subrange(256, 560) =~= a
        + crate::text::hole(5)
        + b
        + crate::text::hole(5)
        + c);
    crate::text::lemma_reads2(SPAWN_BUILDER@, 256, a, 5, b, 5, c, args);
    reveal_strlit("self.inner.__rillet_spawn_core_with(&spawner);

        ");
    reveal_strlit("

        handle
");
    let a = "self.inner.__rillet_spawn_core_with(&spawner);

        "@;
    let b = "

        handle
"@;
    assert(SPAWN_BUILDER@.subrange(659, 734) =~= a + crate::text::hole(6) + b);
    crate::text::lemma_reads1(SPAWN_BUILDER@, 659, a, 6, b, args);
    reveal_strlit("pub fn spawn_with<__S: rillet::runtime::Spawner>(self, spawner: __S) -> ");
    reveal_strlit(" {
        let cancel_token = self.inner.__rillet_cancel_token.clone();
        let (handle, tasks) = self.inner.__rillet_spawn_core_with(&spawner);

        ");
    reveal_strlit("

        handle
    }
}
");
    let a = "pub fn spawn_with<__S: rillet::runtime::Spawner>(self, spawner: __S) -> "@;
    let b = " {
        let cancel_token = self.inner.__rillet_cancel_token.clone();
        let (handle, tasks) = self.inner.__rillet_spawn_core_with(&spawner);

        "@;
    let c = "

        handle
    }
}
"@;
    assert(SPAWN_BUILDER@.subrange(483, 742) =~= a
        + crate::text::hole(5)
        + b
        + crate::text::hole(6)
        + c);
    crate::text::lemma_reads2(SPAWN_BUILDER@, 483, a, 5, b, 6, c, args);
    reveal_strlit(",
    ");
    reveal_strlit("
}

impl ");
    let a = ",
    "@;
    let b = "
}

impl "@;
    assert(SPAWN_BUILDER@.subrange(44, 61) =~= a + crate::text::hole(2) + b);
    crate::text::lemma_reads1(SPAWN_BUILDER@, 44, a, 2, b, args);
    reveal_strlit(" {
    ");
    let a = " {
    "@;
    let b = "
}

impl "@;
    assert(SPAWN_BUILDER@.subrange(63, 81) =~= a + crate::text::hole(3) + b);
    crate::text::lemma_reads1(SPAWN_BUILDER@, 63, a, 3, b, args);
    reveal_strlit("

    /// Spawns");
    let a = " {
    "@;
    let b = "

    /// Spawns"@;
    assert(SPAWN_BUILDER@.subrange(83, 108) =~= a + crate::text::hole(4) + b);
    crate::text::lemma_reads1(SPAWN_BUILDER@, 83, a, 4, b, args);
    reveal_strlit("#[doc(hidden)]
pub struct ");
    reveal_strlit(" {
    inner: ");
    reveal_strlit(",
");
    let a = "#[doc(hidden)]
pub struct "@;
    let b = " {
    inner: "@;
    let c = ",
"@;
    assert(SPAWN_BUILDER@.subrange(0, 46) =~= a
        + crate::text::hole(0)
        + b
        + crate::text::hole(1)
        + c);
    crate::text::lemma_reads2(SPAWN_BUILDER@, 0, a, 0, b, 1, c, args);
}

/// What the text of `CONTEXT_ARG` says, whatever fills it.
proof fn lemma_text_context_arg(args: Seq<Seq<char>>)
    requires
        args.len() >= 1,
    ensures
        crate::text::filled(CONTEXT_ARG@, args) == "__ctx_"@ + args[0],
{
    reveal_strlit("__ctx_$0");
    reveal_strlit("__ctx_");
    let a = "__ctx_"@;
    let b = Seq::<char>::empty();
    assert(CONTEXT_ARG@ =~= a + crate::text::hole(0) + b);
    crate::text::lemma_fills1(a, 0, b, args);
    assert(crate::text::filled(CONTEXT_ARG@, args) =~= "__ctx_"@ + args[0]);
}

/// What the text of `CONTEXT_TASK` says, whatever fills it.
proof fn lemma_text_context_task(args: Seq<Seq<char>>)
    requires
        args.len() >= 4,
    ensures
        crate::text::filled(CONTEXT_TASK@, args) == "if let Some(("@
            + args[2]
            + ",)) = self."@
            + args[3]
            + "_ctx {
    let handle = handle.clone();
    let cancel_token = cancel_token.clone();
    let task_handle = spawner.spawn(async move {
        "@
            + args[0]
            + "::"@
            + args[1]
            + "(handle, cancel_token, "@
            + args[2]
            + ").await;
    });
    tasks.push(Box::new(task_handle));
}
"@,
{
    reveal_strlit("if let Some(($2,)) = self.$3_ctx {
    let handle = handle.clone();
    let cancel_token = cancel_token.clone();
    let task_handle = spawner.spawn(async move {
        $0::$1(handle, cancel_token, $2).await;
    });
    tasks.push(Box::new(task_handle));
}
");
    reveal_strlit("if let Some((");
    reveal_strlit(",)) = self.");
    reveal_strlit("_ctx {
    let handle = handle.clone();
    let cancel_token = cancel_token.clone();
    let task_handle = spawner.spawn(async move {
        ");
    reveal_strlit("::");
    reveal_strlit("(handle, cancel_token, ");
    reveal_strlit(").await;
    });
    tasks.push(Box::new(task_handle));
}
");
    let a = "if let Some(("@;
    let b = ",)) = self."@;
    let c = "_ctx {
    let handle = handle.clone();
    let cancel_token = cancel_token.clone();
    let task_handle = spawner.spawn(async move {
        "@;
    let d = "::"@;
    let e = "(handle, cancel_token, "@;
    let f = ").await;
    });
    tasks.push(Box::new(task_handle));
}
"@;
    assert(CONTEXT_TASK@ =~= a
        + crate::text::hole(2)
        + b
        + crate::text::hole(3)
        + c
        + crate::text::hole(0)
        + d
        + crate::text::hole(1)
        + e
        + crate::text::hole(2)
        + f);
    crate::text::lemma_fills5(a, 2, b, 3, c, 0, d, 1, e, 2, f, args);
}

/// What the text of `BUILDER_FIELD` says, whatever fills it.
proof fn lemma_text_builder_field(args: Seq<Seq<char>>)
    requires
        args.len() >= 2,
    ensures
        crate::text::filled(BUILDER_FIELD@, args) == args[0]
            + "_ctx: Option<("@
            + args[1]
            + ",)>,
"@,
{
    reveal_strlit("$0_ctx: Option<($1,)>,
");
    reveal_strlit("_ctx: Option<(");
    reveal_strlit(",)>,
");
    let a = Seq::<char>::empty();
    let b = "_ctx: Option<("@;
    let c = ",)>,
"@;
    assert(BUILDER_FIELD@ =~= a + crate::text::hole(0) + b + crate::text::hole(1) + c);
    crate::text::lemma_fills2(a, 0, b, 1, c, args);
    assert(crate::text::filled(BUILDER_FIELD@, args) =~= args[0]
        + "_ctx: Option<("@
        + args[1]
        + ",)>,
"@);
}

/// What the text of `SERVICE_SPAWN_METHOD` says, whatever fills it.
proof fn lemma_text_service_spawn_method(args: Seq<Seq<char>>)
    requires
        args.len() >= 5,
    ensures
        crate::text::holds(
            crate::text::filled(SERVICE_SPAWN_METHOD@, args),
            "pub fn spawn_"@
                + args[0]
                + "(self, "@
                + args[1]
                + ") -> "@
                + args[2]
                + " {
    "@
                + args[2]
                + " {
        inner: self,
        "@
                + args[0]
                + "_ctx: Some(("@
                + args[3]
                + ",)),
        "@,
        ),
        crate::text::holds(
            crate::text::filled(SERVICE_SPAWN_METHOD@, args),
            "inner: self,
        "@
                + args[0]
                + "_ctx: Some(("@
                + args[3]
                + ",)),
        "@
                + args[4]
                + "
    }
}
"@,
        ),
{
    reveal_strlit("pub fn spawn_$0(self, $1) -> $2 {
    $2 {
        inner: self,
        $0_ctx: Some(($3,)),
        $4
    }
}
");
    reveal_strlit("pub fn spawn_");
    reveal_strlit("(self, ");
    reveal_strlit(") -> ");
    reveal_strlit(" {
    ");
    reveal_strlit(" {
        inner: self,
        ");
    reveal_strlit("_ctx: Some((");
    reveal_strlit(",)),
        ");
    let a = "pub fn spawn_"@;
    let b = "(self, "@;
    let c = ") -> "@;
    let d = " {
    "@;
    let e = " {
        inner: self,
        "@;
    let f = "_ctx: Some(("@;
    let g = ",)),
        "@;
    assert(SERVICE_SPAWN_METHOD@.subrange(0, 101) =~= a
        + crate::text::hole(0)
        + b
        + crate::text::hole(1)
        + c
        + crate::text::hole(2)
        + d
        + crate::text::hole(2)
        + e
        + crate::text::hole(0)
        + f
        + crate::text::hole(3)
        + g);
    crate::text::lemma_reads6(
        SERVICE_SPAWN_METHOD@,
        0,
        a,
        0,
        b,
        1,
        c,
        2,
        d,
        2,
        e,
        0,
        f,
        3,
        g,
        args,
    );
    reveal_strlit("inner: self,
        ");
    reveal_strlit("
    }
}
");
    let a = "inner: self,
        "@;
    let b = "_ctx: Some(("@;
    let c = ",)),
        "@;
    let d = "
    }
}
"@;
    assert(SERVICE_SPAWN_METHOD@.subrange(51, 112) =~= a
        + crate::text::hole(0)
        + b
        + crate::text::hole(3)
        + c
        + crate::text::hole(4)
        + d);
    crate::text::lemma_reads3(SERVICE_SPAWN_METHOD@, 51, a, 0, b, 3, c, 4, d, args);
}

/// What the text of `BUILDER_NAME` says, whatever fills it.
proof fn lemma_text_builder_name(args: Seq<Seq<char>>)
    requires
        args.len() >= 1,
    ensures
        crate::text::filled(BUILDER_NAME@, args) == "__"@ + args[0] + "Builder"@,
{
    reveal_strlit("__$0Builder");
    reveal_strlit("__");
    reveal_strlit("Builder");
    let a = "__"@;
    let b = "Builder"@;
    assert(BUILDER_NAME@ =~= a + crate::text::hole(0) + b);
    crate::text::lemma_fills1(a, 0, b, args);
}

/// What the text of `BUILDER_SPAWN_METHOD` says, whatever fills it.
proof fn lemma_text_builder_spawn_method(args: Seq<Seq<char>>)
    requires
        args.len() >= 3,
    ensures
        crate::text::filled(BUILDER_SPAWN_METHOD@, args) == "pub fn spawn_"@
            + args[0]
            + "(mut self, "@
            + args[1]
            + ") -> Self {
    self."@
            + args[0]
            + "_ctx = Some(("@
            + args[2]
            + ",));
    self
}
"@,
{
    reveal_strlit("pub fn spawn_$0(mut self, $1) -> Self {
    self.$0_ctx = Some(($2,));
    self
}
");
    reveal_strlit("pub fn spawn_");
    reveal_strlit("(mut self, ");
    reveal_strlit(") -> Self {
    self.");
    reveal_strlit("_ctx = Some((");
    reveal_strlit(",));
    self
}
");
    let a = "pub fn spawn_"@;
    let b = "(mut self, "@;
    let c = ") -> Self {
    self."@;
    let d = "_ctx = Some(("@;
    let e = ",));
    self
}
"@;
    assert(BUILDER_SPAWN_METHOD@ =~= a
        + crate::text::hole(0)
        + b
        + crate::text::hole(1)
        + c
        + crate::text::hole(0)
        + d
        + crate::text::hole(2)
        + e);
    crate::text::lemma_fills4(a, 0, b, 1, c, 0, d, 2, e, args);
}

/// What the text of `CONTEXT_NONE` says, whatever fills it.
proof fn lemma_text_context_none(args: Seq<Seq<char>>)
    requires
        args.len() >= 1,
    ensures
        crate::text::filled(CONTEXT_NONE@, args) == args[0] + "_ctx: None,
"@,
{
    reveal_strlit("$0_ctx: None,
");
    reveal_strlit("_ctx: None,
");
    let a = Seq::<char>::empty();
    let b = "_ctx: None,
"@;
    assert(CONTEXT_NONE@ =~= a + crate::text::hole(0) + b);
    crate::text::lemma_fills1(a, 0, b, args);
    assert(crate::text::filled(CONTEXT_NONE@, args) =~= args[0] + "_ctx: None,
"@);
}

} // verus!
