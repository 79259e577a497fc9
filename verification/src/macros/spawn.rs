//! The spawn methods of a service and the loop they start.

use crate::macros::case::fragment_of;
use crate::macros::commands::{
    COMMA, CommandKind, CommandMethod, CommandView, Names, NamesView, render_param_decls,
    render_param_names, render_param_types, render_usize,
};
use crate::macros::methods::{Param, ParamView};
use crate::text::{each, each_indexed, fill1, fill2, fill3, fill4, fill5, fill7, fill8, numbered};
use vstd::prelude::*;

verus! {

/// A method that runs for each event of a source.
pub struct EventHandler {
    pub method_name: String,
    /// The field whose events drive the handler.
    pub source_field: String,
    /// The source's method that subscribes to the event type.
    pub subscription: String,
}

/// An event handler, as mathematics.
pub struct EventHandlerView {
    pub method_name: Seq<char>,
    pub source_field: Seq<char>,
    pub subscription: Seq<char>,
}

impl View for EventHandler {
    type V = EventHandlerView;

    open spec fn view(&self) -> EventHandlerView {
        EventHandlerView {
            method_name: self.method_name@,
            source_field: self.source_field@,
            subscription: self.subscription@,
        }
    }
}

/// A method that runs for each view a source publishes.
pub struct WatchHandler {
    pub method_name: String,
    /// The field whose view publications drive the handler.
    pub source_field: String,
}

/// A watch handler, as mathematics.
pub struct WatchHandlerView {
    pub method_name: Seq<char>,
    pub source_field: Seq<char>,
}

impl View for WatchHandler {
    type V = WatchHandlerView;

    open spec fn view(&self) -> WatchHandlerView {
        WatchHandlerView { method_name: self.method_name@, source_field: self.source_field@ }
    }
}

/// A method that is spawned alongside the service.
pub struct TaskMethod {
    pub method_name: String,
    /// Parameters beyond the handle and the cancellation token.
    pub extra_params: Vec<Param>,
}

/// A task method, as mathematics.
pub struct TaskView {
    pub method_name: Seq<char>,
    pub extra_params: Seq<ParamView>,
}

impl View for TaskMethod {
    type V = TaskView;

    open spec fn view(&self) -> TaskView {
        TaskView {
            method_name: self.method_name@,
            extra_params: crate::text::views_of(self.extra_params@),
        }
    }
}

pub const EVENT_SETUP: &'static str = "let mut $0_rx = self.$1.$2();\n";

pub const WATCH_SETUP: &'static str = "let mut $0_rx = self.$1.watch_view();\n";

pub const EXIT_CHECK: &'static str =
    "if __flow.exits(|| state.read().unwrap().__rillet_has_observers()) {
    break;
}
";

pub const EVENT_ARM: &'static str = "result = $0_rx_fut => {
    match result {
        Some(event) => {
            {
                let mut s = state.write().unwrap();
                s.$1(event);
                s.__rillet_publish_view();
                s.__rillet_ops.flush_conclusions();
            }
            $3
        }
        None => {
            __flow.close_source($2);
            $3
        }
    }
}
";

pub const WATCH_ARM: &'static str = "view = $0_rx_fut => {
    {
        let mut s = state.write().unwrap();
        s.$1(view);
        s.__rillet_publish_view();
        s.__rillet_ops.flush_conclusions();
    }
    $2
}
";

pub const EVENT_FUTURE: &'static str = "let $0_closed = !__flow.source_open($1);
let mut $0_rx_fut = std::pin::pin!(
    async {
        if $0_closed {
            std::future::pending().await
        } else {
            $0_rx.next().await
        }
    }
    .fuse()
);
";

pub const WATCH_FUTURE: &'static str =
    "let mut $0_rx_fut = std::pin::pin!($0_rx.changed().fuse());\n";

/// The command body and the view republication run under one write lock
/// acquisition, so the published view is the one this command produced.
pub const RUN_COMMAND: &'static str = "let cmd_idx = cmd.index();
{
    let mut s = state.write().unwrap();
    cmd.execute(&mut s);
    s.__rillet_publish_view();
    s.__rillet_ops.flush_conclusions();

    s.__rillet_sampling_state.inc_command();
    if s.__rillet_sampling_state.should_sample() {
        metrics.record_sample();
        s.__rillet_sampling_state.reset();
    }
}
metrics.inc_processed(cmd_idx);
";

/// A closed channel yields an error at every poll, so once the channel
/// closes the loop polls a pending future in its place.
pub const COMMAND_FUTURE: &'static str = "let cmd_closed = !__flow.commands_open();
let mut cmd_fut = std::pin::pin!(
    async {
        if cmd_closed {
            std::future::pending().await
        } else {
            cmd_rx.recv().await
        }
    }
    .fuse()
);
";

pub const COMMAND_LOOP: &'static str = "let state = state_clone;
let cmd_rx = cmd_rx;
let mut __flow = rillet::runtime::LoopState::new($0, $1);
loop {
    use rillet::runtime::FutureExt;

    $2

    let mut cancel_fut = std::pin::pin!(cancel_token.cancelled().fuse());
    $3

    rillet::runtime::futures::select! {
        _ = cancel_fut => {
            // Drain remaining commands before exit
            while let Ok(cmd) = cmd_rx.try_recv() {
                $4
            }
            break;
        }
        result = cmd_fut => {
            match result {
                Ok(cmd) => {
                    $4
                }
                Err(_) => {
                    __flow.close_commands();
                    $5
                }
            }
        }
        $6
    }
}
";

pub const INPUT_LOOP: &'static str = "let state = state_clone;
let cmd_rx = cmd_rx;
let mut __flow = rillet::runtime::LoopState::new($0, $1);
loop {
    use rillet::runtime::FutureExt;

    $2

    let mut cancel_fut = std::pin::pin!(cancel_token.cancelled().fuse());
    $3

    rillet::runtime::futures::select! {
        _ = cancel_fut => break,
        result = cmd_fut => {
            if result.is_err() {
                __flow.close_commands();
                $5
            }
        }
        $6
    }
}
";

pub const IDLE_LOOP: &'static str = "let _state = state_clone;
use rillet::runtime::FutureExt;

let mut cancel_fut = std::pin::pin!(cancel_token.cancelled().fuse());
let mut closed_fut = std::pin::pin!(
    async {
        while cmd_rx.recv().await.is_ok() {}
    }
    .fuse()
);

rillet::runtime::futures::select! {
    _ = cancel_fut => {}
    _ = closed_fut => {}
}
";

pub const TRUE: &'static str = "true";

pub const FALSE: &'static str = "false";

/// A text for one of two cases.
pub open spec fn truth(b: bool) -> Seq<char> {
    if b {
        TRUE@
    } else {
        FALSE@
    }
}

fn render_truth(b: bool) -> (text: &'static str)
    ensures
        text@ == truth(b),
{
    if b {
        TRUE
    } else {
        FALSE
    }
}

/// The subscription of an event handler.
pub open spec fn event_setup(handler: EventHandlerView) -> Seq<char> {
    crate::text::filled(
        EVENT_SETUP@,
        seq![
            crate::macros::case::fragment(handler.method_name),
            handler.source_field,
            handler.subscription,
        ],
    )
}

/// The subscription of a watch handler.
pub open spec fn watch_setup(handler: WatchHandlerView) -> Seq<char> {
    crate::text::filled(
        WATCH_SETUP@,
        seq![crate::macros::case::fragment(handler.method_name), handler.source_field],
    )
}

/// The subscriptions of all handlers.
pub open spec fn receiver_setup(
    events: Seq<EventHandlerView>,
    watches: Seq<WatchHandlerView>,
) -> Seq<char> {
    crate::text::concat(events.map_values(|h: EventHandlerView| event_setup(h)))
        + crate::text::concat(watches.map_values(|h: WatchHandlerView| watch_setup(h)))
}

fn render_event_setup(handler: &EventHandler) -> (text: String)
    ensures
        text@ == event_setup(handler@),
{
    let name = fragment_of(handler.method_name.as_str());
    fill3(
        EVENT_SETUP,
        name.as_str(),
        handler.source_field.as_str(),
        handler.subscription.as_str(),
    )
}

fn render_watch_setup(handler: &WatchHandler) -> (text: String)
    ensures
        text@ == watch_setup(handler@),
{
    let name = fragment_of(handler.method_name.as_str());
    fill2(WATCH_SETUP, name.as_str(), handler.source_field.as_str())
}

fn render_receiver_setup(events: &Vec<EventHandler>, watches: &Vec<WatchHandler>) -> (text: String)
    ensures
        text@ == receiver_setup(
            crate::text::views_of(events@),
            crate::text::views_of(watches@),
        ),
{
    let mut text = each(events, render_event_setup, Ghost(|h: EventHandlerView| event_setup(h)));
    let more = each(watches, render_watch_setup, Ghost(|h: WatchHandlerView| watch_setup(h)));
    text.append(more.as_str());
    text
}

/// The future of an event handler's source, remade at each pass.
pub open spec fn event_future(i: int, handler: EventHandlerView) -> Seq<char> {
    crate::text::filled(
        EVENT_FUTURE@,
        seq![
            crate::macros::case::fragment(handler.method_name),
            crate::macros::commands::usize_literal(i as nat),
        ],
    )
}

/// The future of a watch handler's source, remade at each pass.
pub open spec fn watch_future(handler: WatchHandlerView) -> Seq<char> {
    crate::text::filled(
        WATCH_FUTURE@,
        seq![crate::macros::case::fragment(handler.method_name)],
    )
}

/// The futures of all handlers' sources.
pub open spec fn input_futures(
    events: Seq<EventHandlerView>,
    watches: Seq<WatchHandlerView>,
) -> Seq<char> {
    crate::text::concat(events.map(|i: int, h: EventHandlerView| event_future(i, h)))
        + crate::text::concat(watches.map_values(|h: WatchHandlerView| watch_future(h)))
}

fn render_event_future(i: usize, handler: &EventHandler) -> (text: String)
    ensures
        text@ == event_future(i as int, handler@),
{
    let name = fragment_of(handler.method_name.as_str());
    fill2(EVENT_FUTURE, name.as_str(), render_usize(i).as_str())
}

fn render_watch_future(handler: &WatchHandler) -> (text: String)
    ensures
        text@ == watch_future(handler@),
{
    let name = fragment_of(handler.method_name.as_str());
    fill1(WATCH_FUTURE, name.as_str())
}

fn render_input_futures(events: &Vec<EventHandler>, watches: &Vec<WatchHandler>) -> (text: String)
    ensures
        text@ == input_futures(crate::text::views_of(events@), crate::text::views_of(watches@)),
{
    let mut text = each_indexed(
        events,
        render_event_future,
        Ghost(|i: int, h: EventHandlerView| event_future(i, h)),
    );
    let more = each(watches, render_watch_future, Ghost(|h: WatchHandlerView| watch_future(h)));
    text.append(more.as_str());
    text
}

/// The arm that runs an event handler: the handler and the view
/// republication run under one write lock acquisition.
pub open spec fn event_arm(i: int, handler: EventHandlerView) -> Seq<char> {
    crate::text::filled(
        EVENT_ARM@,
        seq![
            crate::macros::case::fragment(handler.method_name),
            handler.method_name,
            crate::macros::commands::usize_literal(i as nat),
            EXIT_CHECK@,
        ],
    )
}

/// The arm that runs a watch handler, under one write lock acquisition too.
pub open spec fn watch_arm(handler: WatchHandlerView) -> Seq<char> {
    crate::text::filled(
        WATCH_ARM@,
        seq![
            crate::macros::case::fragment(handler.method_name),
            handler.method_name,
            EXIT_CHECK@,
        ],
    )
}

/// The arms of all handlers.
pub open spec fn input_arms(
    events: Seq<EventHandlerView>,
    watches: Seq<WatchHandlerView>,
) -> Seq<char> {
    crate::text::concat(events.map(|i: int, h: EventHandlerView| event_arm(i, h)))
        + crate::text::concat(watches.map_values(|h: WatchHandlerView| watch_arm(h)))
}

fn render_event_arm(i: usize, handler: &EventHandler) -> (text: String)
    ensures
        text@ == event_arm(i as int, handler@),
{
    let name = fragment_of(handler.method_name.as_str());
    fill4(
        EVENT_ARM,
        name.as_str(),
        handler.method_name.as_str(),
        render_usize(i).as_str(),
        EXIT_CHECK,
    )
}

fn render_watch_arm(handler: &WatchHandler) -> (text: String)
    ensures
        text@ == watch_arm(handler@),
{
    let name = fragment_of(handler.method_name.as_str());
    fill3(WATCH_ARM, name.as_str(), handler.method_name.as_str(), EXIT_CHECK)
}

fn render_input_arms(events: &Vec<EventHandler>, watches: &Vec<WatchHandler>) -> (text: String)
    ensures
        text@ == input_arms(crate::text::views_of(events@), crate::text::views_of(watches@)),
{
    let mut text = each_indexed(
        events,
        render_event_arm,
        Ghost(|i: int, h: EventHandlerView| event_arm(i, h)),
    );
    let more = each(watches, render_watch_arm, Ghost(|h: WatchHandlerView| watch_arm(h)));
    text.append(more.as_str());
    text
}

/// The body of the service loop: with commands it drains them when
/// cancelled; without any inputs it waits for the end.
pub open spec fn service_loop(
    has_commands: bool,
    events: Seq<EventHandlerView>,
    watches: Seq<WatchHandlerView>,
) -> Seq<char> {
    let holes = seq![
        crate::macros::commands::usize_literal(events.len()),
        truth(watches.len() > 0),
        input_futures(events, watches),
        COMMAND_FUTURE@,
        RUN_COMMAND@,
        EXIT_CHECK@,
        input_arms(events, watches),
    ];
    if has_commands {
        crate::text::filled(COMMAND_LOOP@, holes)
    } else if events.len() > 0 || watches.len() > 0 {
        crate::text::filled(INPUT_LOOP@, holes)
    } else {
        IDLE_LOOP@
    }
}

fn render_service_loop(
    has_commands: bool,
    events: &Vec<EventHandler>,
    watches: &Vec<WatchHandler>,
) -> (text: String)
    ensures
        text@ == service_loop(
            has_commands,
            crate::text::views_of(events@),
            crate::text::views_of(watches@),
        ),
{
    if !has_commands && events.len() == 0 && watches.len() == 0 {
        return IDLE_LOOP.to_owned();
    }
    let template = if has_commands {
        COMMAND_LOOP
    } else {
        INPUT_LOOP
    };
    fill7(
        template,
        render_usize(events.len()).as_str(),
        render_truth(watches.len() > 0),
        render_input_futures(events, watches).as_str(),
        COMMAND_FUTURE,
        RUN_COMMAND,
        EXIT_CHECK,
        render_input_arms(events, watches).as_str(),
    )
}

pub const EMPTY: &'static str = "";

/// The task that fails overdue operations runs until the service loop ends.
pub const SPAWN_EXPIRY: &'static str = "let ops = self.__rillet_ops.clone();
let expiry = rillet::runtime::CancellationToken::new();
tasks.push(Box::new(spawner.spawn(rillet::op::expire_loop(ops.clone(), expiry.clone()))));
";

pub const STOP_EXPIRY: &'static str = "ops.close();
expiry.cancel();
";

pub const SPAWN_CORE: &'static str = "impl $0 {
    /// Spawns the service loop; the caller spawns the tasks.
    fn __rillet_spawn_core_with<__S: rillet::runtime::Spawner>(
        mut self,
        spawner: &__S,
    ) -> ($1, rillet::runtime::Arc<rillet::runtime::TaskSet>) {
        let (cmd_tx, cmd_rx) =
            rillet::runtime::mpsc::bounded::<$2>($0::__RILLET_COMMAND_CAPACITY);

        let metrics = rillet::runtime::Arc::new(rillet::metrics::CommandMetrics::<$3>::new());

        self.__rillet_wire_emitter();
        self.__rillet_seed_view();
        let __rillet_view = self.__rillet_view_slot_any();
        let __rillet_gauges = self.__rillet_gauges();

        $4

        let cancel_token = self.__rillet_cancel_token.clone();
        let tasks = self.__rillet_tasks.clone();
        $6

        let state = rillet::runtime::Arc::new(rillet::runtime::RwLock::new(self));
        let state_clone = state.clone();

        {
            let cancel_token = cancel_token.clone();
            let metrics = metrics.clone();
            let main_loop_handle = spawner.spawn(async move {
                $5
                $7
            });
            tasks.push(Box::new(main_loop_handle));
        }

        (
            $1 {
                state,
                cmd_tx,
                metrics,
                __rillet_view,
                __rillet_gauges,
                __rillet_cancel: cancel_token,
                __rillet_tasks: tasks.clone(),
            },
            tasks,
        )
    }
}
";

pub const HANDLE_TASK: &'static str = "{
    let handle = handle.clone();
    let cancel_token = cancel_token.clone();
    let task_handle = spawner.spawn(async move {
        $0::$1(handle, cancel_token).await;
    });
    tasks.push(Box::new(task_handle));
}
";

pub const CONTEXT_TASK: &'static str = "if let Some(($2,)) = self.$3_ctx {
    let handle = handle.clone();
    let cancel_token = cancel_token.clone();
    let task_handle = spawner.spawn(async move {
        $0::$1(handle, cancel_token, $2).await;
    });
    tasks.push(Box::new(task_handle));
}
";

pub const NO_TASK_SETUP: &'static str =
    "let (handle, _) = self.__rillet_spawn_core_with(&spawner);
";

pub const TASK_SETUP: &'static str = "let cancel_token = self.__rillet_cancel_token.clone();
let (handle, tasks) = self.__rillet_spawn_core_with(&spawner);
";

pub const SPAWN_SIMPLE: &'static str = "impl $0 {
    /// Spawns this service on the default [`SmolSpawner`](rillet::SmolSpawner)
    /// and returns its handle.
    ///
    /// The service runs until cancelled.
    pub fn spawn(self) -> $1 {
        self.spawn_with(rillet::runtime::SmolSpawner)
    }

    /// Spawns this service on the given spawner and returns its
    /// handle.
    ///
    /// The service runs until cancelled.
    pub fn spawn_with<__S: rillet::runtime::Spawner>(self, spawner: __S) -> $1 {
        $2

        $3

        handle
    }
}
";

pub const BUILDER_NAME: &'static str = "__$0Builder";

pub const BUILDER_FIELD: &'static str = "$0_ctx: Option<($1,)>,
";

pub const CONTEXT_NONE: &'static str = "$0_ctx: None,
";

pub const CONTEXT_ARG: &'static str = "__ctx_$0";

pub const SERVICE_SPAWN_METHOD: &'static str = "pub fn spawn_$0(self, $1) -> $2 {
    $2 {
        inner: self,
        $0_ctx: Some(($3,)),
        $4
    }
}
";

pub const BUILDER_SPAWN_METHOD: &'static str = "pub fn spawn_$0(mut self, $1) -> Self {
    self.$0_ctx = Some(($2,));
    self
}
";

pub const SPAWN_BUILDER: &'static str = "#[doc(hidden)]
pub struct $0 {
    inner: $1,
    $2
}

impl $1 {
    $3
}

impl $0 {
    $4

    /// Spawns this service on the default [`SmolSpawner`](rillet::SmolSpawner)
    /// and returns its handle.
    ///
    /// The service runs until cancelled.
    pub fn spawn(self) -> $5 {
        self.spawn_with(rillet::runtime::SmolSpawner)
    }

    /// Spawns this service on the given spawner and returns its
    /// handle.
    ///
    /// The service runs until cancelled.
    pub fn spawn_with<__S: rillet::runtime::Spawner>(self, spawner: __S) -> $5 {
        let cancel_token = self.inner.__rillet_cancel_token.clone();
        let (handle, tasks) = self.inner.__rillet_spawn_core_with(&spawner);

        $6

        handle
    }
}
";

/// Whether any command is an op.
pub open spec fn has_ops(commands: Seq<CommandView>) -> bool {
    exists|i: int| 0 <= i < commands.len() && !((#[trigger] commands[i]).kind is Plain)
}

fn any_ops(commands: &Vec<CommandMethod>) -> (found: bool)
    ensures
        found == has_ops(crate::text::views_of(commands@)),
{
    let ghost views = crate::text::views_of(commands@);
    for i in 0..commands.len()
        invariant
            views == crate::text::views_of(commands@),
            forall|j: int| 0 <= j < i ==> (#[trigger] views[j]).kind is Plain,
    {
        assert(views[i as int] == commands@[i as int]@);
        match commands[i].kind {
            CommandKind::Plain => {},
            _ => {
                return true;
            },
        }
    }
    false
}

/// The function both spawn paths call: it spawns the service loop and
/// returns the handle and the service's tasks.
pub open spec fn spawn_core(
    names: NamesView,
    commands: Seq<CommandView>,
    setup: Seq<char>,
    body: Seq<char>,
) -> Seq<char> {
    crate::text::filled(
        SPAWN_CORE@,
        seq![
            names.service,
            names.handle,
            names.command,
            crate::macros::commands::usize_literal(commands.len()),
            setup,
            body,
            if has_ops(commands) {
                SPAWN_EXPIRY@
            } else {
                EMPTY@
            },
            if has_ops(commands) {
                STOP_EXPIRY@
            } else {
                EMPTY@
            },
        ],
    )
}

/// Writes the function both spawn paths call.
pub fn generate_spawn_core(
    names: &Names,
    commands: &Vec<CommandMethod>,
    setup: &str,
    body: &str,
) -> (text: String)
    ensures
        text@ == spawn_core(names@, crate::text::views_of(commands@), setup@, body@),
{
    let ops = any_ops(commands);
    fill8(
        SPAWN_CORE,
        names.service.as_str(),
        names.handle.as_str(),
        names.command.as_str(),
        render_usize(commands.len()).as_str(),
        setup,
        body,
        if ops {
            SPAWN_EXPIRY
        } else {
            EMPTY
        },
        if ops {
            STOP_EXPIRY
        } else {
            EMPTY
        },
    )
}

/// The spawn of a task that takes only the handle and the token.
pub open spec fn handle_task_spawn(service: Seq<char>, method: Seq<char>) -> Seq<char> {
    crate::text::filled(HANDLE_TASK@, seq![service, method])
}

/// Writes the spawn of a task that takes only the handle and the token.
pub fn generate_handle_task_spawn(service: &str, method: &str) -> (text: String)
    ensures
        text@ == handle_task_spawn(service@, method@),
{
    fill2(HANDLE_TASK, service, method)
}

/// The plain spawn methods, for a service whose tasks take only the handle
/// and the token.
pub open spec fn spawn_simple(names: NamesView, core: Seq<char>, tasks: Seq<TaskView>) -> Seq<
    char,
> {
    core + crate::text::filled(
        SPAWN_SIMPLE@,
        seq![
            names.service,
            names.handle,
            if tasks.len() == 0 {
                NO_TASK_SETUP@
            } else {
                TASK_SETUP@
            },
            crate::text::concat(
                tasks.map_values(
                    |t: TaskView| handle_task_spawn(names.service, t.method_name),
                ),
            ),
        ],
    )
}

/// Writes the plain spawn methods.
pub fn generate_spawn_simple(names: &Names, core: &str, tasks: &Vec<TaskMethod>) -> (text: String)
    ensures
        text@ == spawn_simple(names@, core@, crate::text::views_of(tasks@)),
{
    let spawn = |t: &TaskMethod| -> (text: String)
        ensures
            text@ == handle_task_spawn(names@.service, t@.method_name),
        { generate_handle_task_spawn(names.service.as_str(), t.method_name.as_str()) };
    let spawns = each(
        tasks,
        spawn,
        Ghost(|t: TaskView| handle_task_spawn(names@.service, t.method_name)),
    );
    let setup = if tasks.len() == 0 {
        NO_TASK_SETUP
    } else {
        TASK_SETUP
    };
    let mut text = core.to_owned();
    let methods = fill4(
        SPAWN_SIMPLE,
        names.service.as_str(),
        names.handle.as_str(),
        setup,
        spawns.as_str(),
    );
    text.append(methods.as_str());
    text
}

/// Whether a task takes more than the handle and the token.
pub open spec fn has_context(task: TaskView) -> bool {
    task.extra_params.len() > 0
}

/// Whether any task takes more than the handle and the token.
pub open spec fn any_context(tasks: Seq<TaskView>) -> bool {
    exists|i: int| 0 <= i < tasks.len() && has_context(#[trigger] tasks[i])
}

fn find_context(tasks: &Vec<TaskMethod>) -> (found: bool)
    ensures
        found == any_context(crate::text::views_of(tasks@)),
{
    let ghost views = crate::text::views_of(tasks@);
    for i in 0..tasks.len()
        invariant
            views == crate::text::views_of(tasks@),
            forall|j: int| 0 <= j < i ==> !has_context(#[trigger] views[j]),
    {
        assert(views[i as int] == tasks@[i as int]@);
        if tasks[i].extra_params.len() > 0 {
            return true;
        }
    }
    false
}

/// The builder's field for a task's context.
pub open spec fn builder_field(task: TaskView) -> Seq<char> {
    if has_context(task) {
        crate::text::filled(
            BUILDER_FIELD@,
            seq![
                crate::macros::case::fragment(task.method_name),
                crate::macros::commands::param_types(task.extra_params),
            ],
        )
    } else {
        EMPTY@
    }
}

fn render_builder_field(task: &TaskMethod) -> (text: String)
    ensures
        text@ == builder_field(task@),
{
    if task.extra_params.len() > 0 {
        let name = fragment_of(task.method_name.as_str());
        fill2(BUILDER_FIELD, name.as_str(), render_param_types(&task.extra_params).as_str())
    } else {
        EMPTY.to_owned()
    }
}

/// The start value of another task's context.
pub open spec fn other_init(method: Seq<char>, task: TaskView) -> Seq<char> {
    if has_context(task) && task.method_name != method {
        crate::text::filled(CONTEXT_NONE@, seq![crate::macros::case::fragment(task.method_name)])
    } else {
        EMPTY@
    }
}

fn render_other_init(method: &String, task: &TaskMethod) -> (text: String)
    ensures
        text@ == other_init(method@, task@),
{
    if task.extra_params.len() > 0 && task.method_name != *method {
        fill1(CONTEXT_NONE, fragment_of(task.method_name.as_str()).as_str())
    } else {
        EMPTY.to_owned()
    }
}

/// The service's method that provides a task's context and returns the
/// builder.
pub open spec fn service_spawn_method(
    builder: Seq<char>,
    tasks: Seq<TaskView>,
    task: TaskView,
) -> Seq<char> {
    if has_context(task) {
        crate::text::filled(
            SERVICE_SPAWN_METHOD@,
            seq![
                crate::macros::case::fragment(task.method_name),
                crate::macros::commands::param_decls(task.extra_params),
                builder,
                crate::macros::commands::param_names(task.extra_params),
                crate::text::concat(
                    tasks.map_values(|t: TaskView| other_init(task.method_name, t)),
                ),
            ],
        )
    } else {
        EMPTY@
    }
}

fn render_service_spawn_method(
    builder: &str,
    tasks: &Vec<TaskMethod>,
    task: &TaskMethod,
) -> (text: String)
    ensures
        text@ == service_spawn_method(builder@, crate::text::views_of(tasks@), task@),
{
    if task.extra_params.len() == 0 {
        return EMPTY.to_owned();
    }
    let other = |t: &TaskMethod| -> (text: String)
        ensures
            text@ == other_init(task@.method_name, t@),
        { render_other_init(&task.method_name, t) };
    let others = each(tasks, other, Ghost(|t: TaskView| other_init(task@.method_name, t)));
    fill5(
        SERVICE_SPAWN_METHOD,
        fragment_of(task.method_name.as_str()).as_str(),
        render_param_decls(&task.extra_params).as_str(),
        builder,
        render_param_names(&task.extra_params).as_str(),
        others.as_str(),
    )
}

/// The builder's method that provides a task's context.
pub open spec fn builder_spawn_method(task: TaskView) -> Seq<char> {
    if has_context(task) {
        crate::text::filled(
            BUILDER_SPAWN_METHOD@,
            seq![
                crate::macros::case::fragment(task.method_name),
                crate::macros::commands::param_decls(task.extra_params),
                crate::macros::commands::param_names(task.extra_params),
            ],
        )
    } else {
        EMPTY@
    }
}

fn render_builder_spawn_method(task: &TaskMethod) -> (text: String)
    ensures
        text@ == builder_spawn_method(task@),
{
    if task.extra_params.len() == 0 {
        return EMPTY.to_owned();
    }
    fill3(
        BUILDER_SPAWN_METHOD,
        fragment_of(task.method_name.as_str()).as_str(),
        render_param_decls(&task.extra_params).as_str(),
        render_param_names(&task.extra_params).as_str(),
    )
}

/// The names a task's context is taken apart into.
pub open spec fn context_args(n: nat) -> Seq<char> {
    crate::text::joined(crate::text::numbered_parts(CONTEXT_ARG@, n), COMMA@)
}

/// The spawn of a task by the builder: one with a context is spawned only
/// if the context was provided.
pub open spec fn task_spawn(service: Seq<char>, task: TaskView) -> Seq<char> {
    if has_context(task) {
        crate::text::filled(
            CONTEXT_TASK@,
            seq![
                service,
                task.method_name,
                context_args(task.extra_params.len()),
                crate::macros::case::fragment(task.method_name),
            ],
        )
    } else {
        handle_task_spawn(service, task.method_name)
    }
}

fn render_task_spawn(service: &str, task: &TaskMethod) -> (text: String)
    ensures
        text@ == task_spawn(service@, task@),
{
    if task.extra_params.len() == 0 {
        return generate_handle_task_spawn(service, task.method_name.as_str());
    }
    fill4(
        CONTEXT_TASK,
        service,
        task.method_name.as_str(),
        numbered(CONTEXT_ARG, task.extra_params.len(), COMMA).as_str(),
        fragment_of(task.method_name.as_str()).as_str(),
    )
}

/// The spawn builder, for a service with a task that takes more than the
/// handle and the token.
pub open spec fn spawn_with_builder(names: NamesView, core: Seq<char>, tasks: Seq<TaskView>) -> Seq<
    char,
> {
    let builder = crate::text::filled(
        BUILDER_NAME@,
        seq![crate::macros::case::fragment(names.service)],
    );
    core + crate::text::filled(
        SPAWN_BUILDER@,
        seq![
            builder,
            names.service,
            crate::text::concat(tasks.map_values(|t: TaskView| builder_field(t))),
            crate::text::concat(
                tasks.map_values(|t: TaskView| service_spawn_method(builder, tasks, t)),
            ),
            crate::text::concat(tasks.map_values(|t: TaskView| builder_spawn_method(t))),
            names.handle,
            crate::text::concat(tasks.map_values(|t: TaskView| task_spawn(names.service, t))),
        ],
    )
}

/// Writes the spawn builder.
pub fn generate_spawn_with_builder(
    names: &Names,
    core: &str,
    tasks: &Vec<TaskMethod>,
) -> (text: String)
    ensures
        text@ == spawn_with_builder(names@, core@, crate::text::views_of(tasks@)),
{
    let ghost views = crate::text::views_of(tasks@);
    let builder = fill1(BUILDER_NAME, fragment_of(names.service.as_str()).as_str());
    let fields = each(tasks, render_builder_field, Ghost(|t: TaskView| builder_field(t)));
    let service_method = |t: &TaskMethod| -> (text: String)
        ensures
            text@ == service_spawn_method(builder@, crate::text::views_of(tasks@), t@),
        { render_service_spawn_method(builder.as_str(), tasks, t) };
    let service_methods = each(
        tasks,
        service_method,
        Ghost(|t: TaskView| service_spawn_method(builder@, views, t)),
    );
    let builder_methods = each(
        tasks,
        render_builder_spawn_method,
        Ghost(|t: TaskView| builder_spawn_method(t)),
    );
    let spawn = |t: &TaskMethod| -> (text: String)
        ensures
            text@ == task_spawn(names@.service, t@),
        { render_task_spawn(names.service.as_str(), t) };
    let spawns = each(tasks, spawn, Ghost(|t: TaskView| task_spawn(names@.service, t)));
    let mut text = core.to_owned();
    let methods = fill7(
        SPAWN_BUILDER,
        builder.as_str(),
        names.service.as_str(),
        fields.as_str(),
        service_methods.as_str(),
        builder_methods.as_str(),
        names.handle.as_str(),
        spawns.as_str(),
    );
    text.append(methods.as_str());
    text
}

/// The spawn methods of a service.
pub open spec fn spawn_impl(
    names: NamesView,
    commands: Seq<CommandView>,
    events: Seq<EventHandlerView>,
    watches: Seq<WatchHandlerView>,
    tasks: Seq<TaskView>,
) -> Seq<char> {
    let core = spawn_core(
        names,
        commands,
        receiver_setup(events, watches),
        service_loop(commands.len() > 0, events, watches),
    );
    if any_context(tasks) {
        spawn_with_builder(names, core, tasks)
    } else {
        spawn_simple(names, core, tasks)
    }
}

/// Writes the spawn methods of a service.
pub fn generate_spawn_impl(
    names: &Names,
    commands: &Vec<CommandMethod>,
    events: &Vec<EventHandler>,
    watches: &Vec<WatchHandler>,
    tasks: &Vec<TaskMethod>,
) -> (text: String)
    ensures
        text@ == spawn_impl(
            names@,
            crate::text::views_of(commands@),
            crate::text::views_of(events@),
            crate::text::views_of(watches@),
            crate::text::views_of(tasks@),
        ),
{
    let setup = render_receiver_setup(events, watches);
    let body = render_service_loop(commands.len() > 0, events, watches);
    let core = generate_spawn_core(names, commands, setup.as_str(), body.as_str());
    if find_context(tasks) {
        generate_spawn_with_builder(names, core.as_str(), tasks)
    } else {
        generate_spawn_simple(names, core.as_str(), tasks)
    }
}

} // verus!
