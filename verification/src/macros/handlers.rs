//! The `#[rillet::handlers]` attribute macro.
//!
//! From an impl block's annotated methods it writes:
//! - the command enum and queueing methods for `#[rillet(command)]` and
//!   `#[rillet(op)]`
//! - handle wrappers for `#[rillet(direct)]` and `#[rillet(direct_mut)]`
//! - event subscriptions for `#[rillet(from = field)]`
//! - view watches for `#[rillet(watch = field)]`
//! - the spawn methods, whose loop selects over commands, events, and watches
//!
//! Every mutation in what it writes (commands, event handlers, direct_mut
//! calls) republishes the service's view while still holding the write
//! lock, so views can never tear against the state that produced them.

use crate::macros::attrs::{RilletAttr, read_attr, read_inner};
use crate::macros::case::{fragment_of, to_pascal_case, to_snake_case};
use crate::macros::commands::{
    CommandKind, CommandKindView, CommandMethod, CommandView, IMPL, Names, NamesView,
    generate_command_infra, render_param_decls, render_param_names, render_usize,
};
use crate::macros::methods::{
    MethodAttrs, MethodAttrsView, OpRole, OpRoleView, Param, ParamView, extract_all_params,
    extract_param, parse_args, parse_method_attrs,
};
use crate::macros::spawn::{
    EMPTY, EventHandler, EventHandlerView, TaskMethod, TaskView, WatchHandler, WatchHandlerView,
    generate_spawn_impl,
};
use crate::macros::syntax::{
    ArgParts, ArgView, ImplParts, ImplPartsView, MethodParts, MethodPartsView, TypeParts,
    parse_impl, parse_method, parse_type,
};
use crate::text::{chars_of, each, fill1, fill2, fill4, fill5};
use vstd::prelude::*;

verus! {

/// What is wrong with an impl block for more than a lone name.
pub const EXPECTED_NAME: &'static str = "expected a simple type name";

/// What is wrong with an event handler without an event.
pub const EXPECTED_EVENT: &'static str = "event handler must have an event parameter";

pub const COMMAND_NAME: &'static str = "$0Command";

pub const HANDLE_NAME: &'static str = "$0Handle";

pub const ON_EVENT: &'static str = "on_$0";

pub const SPACED: &'static str = "$0 ";

pub const METHOD: &'static str = "$0$1 $2 $3 $4\n";

pub const LINE: &'static str = "$0\n";

pub const DIRECT_METHOD: &'static str =
    "/// Runs on the caller's thread under the service's read lock.
pub fn $0(&self, $1) $2 {
    self.state.read().unwrap().$0($3)
}
";

pub const DIRECT_MUT_METHOD: &'static str =
    "/// Runs on the caller's thread under the service's write
/// lock, republishing the view before returning.
pub fn $0(&self, $1) $2 {
    let mut s = self.state.write().unwrap();
    let result = s.$0($3);
    s.__rillet_publish_view();
    s.__rillet_ops.flush_conclusions();
    result
}
";

pub const HANDLE_STRUCT: &'static str = "/// Handle for interacting with the service.
#[derive(Clone)]
pub struct $0 {
    state: rillet::runtime::Arc<rillet::runtime::RwLock<$1>>,
    cmd_tx: rillet::runtime::mpsc::Sender<$2>,
    metrics: rillet::runtime::Arc<rillet::metrics::CommandMetrics<$3>>,
    __rillet_view: Option<rillet::runtime::Arc<dyn std::any::Any + Send + Sync>>,
    __rillet_gauges: __$4Gauges,
    __rillet_cancel: rillet::runtime::CancellationToken,
    __rillet_tasks: rillet::runtime::Arc<rillet::runtime::TaskSet>,
}
";

pub const CLEAN_IMPL: &'static str = "impl $0 $1 $2 {
    $3
}
";

/// A method that a handle runs on the caller's thread.
pub struct DirectMethod {
    pub method_name: String,
    pub params: Vec<Param>,
    /// The return type with the arrow.
    pub return_type: String,
}

/// A direct method, as mathematics.
pub struct DirectView {
    pub method_name: Seq<char>,
    pub params: Seq<ParamView>,
    pub return_type: Seq<char>,
}

impl View for DirectMethod {
    type V = DirectView;

    open spec fn view(&self) -> DirectView {
        DirectView {
            method_name: self.method_name@,
            params: crate::text::views_of(self.params@),
            return_type: self.return_type@,
        }
    }
}

/// The methods of an impl block by their roles, and its items without the
/// macros' attributes.
pub struct Roles {
    pub commands: Vec<CommandMethod>,
    pub directs: Vec<DirectMethod>,
    pub direct_muts: Vec<DirectMethod>,
    pub events: Vec<EventHandler>,
    pub watches: Vec<WatchHandler>,
    pub tasks: Vec<TaskMethod>,
    pub items: Vec<String>,
}

/// The methods by their roles, as mathematics.
pub struct RolesView {
    pub commands: Seq<CommandView>,
    pub directs: Seq<DirectView>,
    pub direct_muts: Seq<DirectView>,
    pub events: Seq<EventHandlerView>,
    pub watches: Seq<WatchHandlerView>,
    pub tasks: Seq<TaskView>,
    pub items: Seq<Seq<char>>,
}

impl View for Roles {
    type V = RolesView;

    open spec fn view(&self) -> RolesView {
        RolesView {
            commands: crate::text::views_of(self.commands@),
            directs: crate::text::views_of(self.directs@),
            direct_muts: crate::text::views_of(self.direct_muts@),
            events: crate::text::views_of(self.events@),
            watches: crate::text::views_of(self.watches@),
            tasks: crate::text::views_of(self.tasks@),
            items: crate::text::views_of(self.items@),
        }
    }
}

/// An attribute where an outer one stands, unless it is the macros'.
pub open spec fn outer_attr(attr: Seq<char>) -> Seq<char> {
    if crate::macros::attrs::rillet_attr(attr) is Other && !crate::macros::attrs::is_inner(attr) {
        crate::text::filled(SPACED@, seq![attr])
    } else {
        EMPTY@
    }
}

/// An attribute where an inner one stands, unless it is the macros'.
pub open spec fn inner_attr(attr: Seq<char>) -> Seq<char> {
    if crate::macros::attrs::rillet_attr(attr) is Other && crate::macros::attrs::is_inner(attr) {
        crate::text::filled(SPACED@, seq![attr])
    } else {
        EMPTY@
    }
}

/// A body in braces with attributes behind the opening one.
pub open spec fn body_with(body: Seq<char>, attrs: Seq<char>) -> Seq<char> {
    if body.len() == 0 {
        attrs
    } else {
        body.take(1) + attrs + body.skip(1)
    }
}

/// A method without the macros' attributes.
pub open spec fn stripped(method: MethodPartsView) -> Seq<char> {
    crate::text::filled(
        METHOD@,
        seq![
            crate::text::concat(method.attrs.map_values(|attr: Seq<char>| outer_attr(attr))),
            method.vis,
            method.defaultness,
            method.signature,
            body_with(
                method.body,
                crate::text::concat(method.attrs.map_values(|attr: Seq<char>| inner_attr(attr))),
            ),
        ],
    )
}

pub fn render_outer_attr(attr: &String) -> (text: String)
    ensures
        text@ == outer_attr(attr@),
{
    match read_attr(attr.as_str()) {
        RilletAttr::Other => if read_inner(attr.as_str()) {
            EMPTY.to_owned()
        } else {
            fill1(SPACED, attr.as_str())
        },
        _ => EMPTY.to_owned(),
    }
}

fn render_inner_attr(attr: &String) -> (text: String)
    ensures
        text@ == inner_attr(attr@),
{
    match read_attr(attr.as_str()) {
        RilletAttr::Other => if read_inner(attr.as_str()) {
            fill1(SPACED, attr.as_str())
        } else {
            EMPTY.to_owned()
        },
        _ => EMPTY.to_owned(),
    }
}

fn render_body_with(body: &str, attrs: &str) -> (text: String)
    ensures
        text@ == body_with(body@, attrs@),
{
    let chars = chars_of(body);
    if chars.len() == 0 {
        return attrs.to_owned();
    }
    let mut text = String::new();
    text.push(chars[0]);
    text.append(attrs);
    assert(text@ =~= body@.take(1) + attrs@ + body@.subrange(1, 1));
    for i in 1..chars.len()
        invariant
            1 <= chars.len(),
            chars@ == body@,
            text@ == body@.take(1) + attrs@ + body@.subrange(1, i as int),
    {
        text.push(chars[i]);
        assert(text@ =~= body@.take(1) + attrs@ + body@.subrange(1, i + 1));
    }
    assert(body@.subrange(1, chars.len() as int) =~= body@.skip(1));
    text
}

/// Strips the macros' attributes off a method.
pub fn strip_rillet_attrs(method: &MethodParts) -> (text: String)
    ensures
        text@ == stripped(method@),
{
    let outer = each(&method.attrs, render_outer_attr, Ghost(|attr: Seq<char>| outer_attr(attr)));
    let inner = each(&method.attrs, render_inner_attr, Ghost(|attr: Seq<char>| inner_attr(attr)));
    fill5(
        METHOD,
        outer.as_str(),
        method.vis.as_str(),
        method.defaultness.as_str(),
        method.signature.as_str(),
        render_body_with(method.body.as_str(), inner.as_str()).as_str(),
    )
}

/// The method that subscribes to events of a type whose path ends in the
/// given segment: `MessageSent` becomes `on_message_sent`.
pub open spec fn subscription_of(segment: Seq<char>) -> Seq<char> {
    crate::text::filled(
        ON_EVENT@,
        seq![crate::macros::case::snake_case(crate::macros::case::spelling(segment))],
    )
}

/// The last segment of a path; a path without segments and what is no path
/// have an empty one.
pub open spec fn last_segment(segments: Option<Seq<Seq<char>>>) -> Seq<char> {
    match segments {
        Some(segments) => if segments.len() > 0 {
            segments.last()
        } else {
            EMPTY@
        },
        None => EMPTY@,
    }
}

/// Picks the last segment of a path.
pub fn pick_segment(parts: &TypeParts) -> (segment: String)
    ensures
        segment@ == last_segment(parts@.segments),
{
    match &parts.segments {
        Some(segments) => if segments.len() > 0 {
            segments[segments.len() - 1].clone()
        } else {
            EMPTY.to_owned()
        },
        None => EMPTY.to_owned(),
    }
}

/// The method that subscribes to events of a type.
pub open spec fn subscription_method(ty: Seq<char>) -> Seq<char> {
    match crate::macros::syntax::typed(ty) {
        Ok(parts) => subscription_of(last_segment(parts.segments)),
        Err(_) => subscription_of(EMPTY@),
    }
}

/// Derives the subscription method from the last segment of an event type's
/// path.
pub fn subscription_name(segment: &str) -> (name: String)
    ensures
        name@ == subscription_of(segment@),
{
    fill1(ON_EVENT, to_snake_case(segment).as_str())
}

/// Derives the subscription method from an event type.
pub fn derive_subscription_method(ty: &str) -> (name: String)
    ensures
        name@ == subscription_method(ty@),
{
    match parse_type(ty) {
        Ok(parts) => subscription_name(pick_segment(&parts).as_str()),
        Err(_) => subscription_name(EMPTY),
    }
}

/// A command out of a method.
pub open spec fn command_of(
    method: MethodPartsView,
    params: Seq<ParamView>,
    kind: CommandKindView,
) -> CommandView {
    CommandView {
        method_name: method.name,
        variant_name: crate::macros::case::pascal_case(crate::macros::case::spelling(method.name)),
        params,
        kind,
    }
}

/// How an op's command runs.
pub open spec fn op_kind(op: OpRoleView, output: Seq<char>) -> CommandKindView {
    match op {
        OpRoleView::Immediate => CommandKindView::Immediate { output },
        OpRoleView::Deferred { execute, timeout } => CommandKindView::Deferred {
            output,
            execute,
            timeout,
        },
    }
}

/// The methods by their roles with one more annotated method. Where
/// attributes name several roles, the first counts out of: command, direct,
/// direct_mut, op, from, watch, task.
pub open spec fn with_method(
    roles: RolesView,
    item: Seq<char>,
    method: MethodPartsView,
    attrs: MethodAttrsView,
    args: Seq<ArgView>,
) -> Result<RolesView, Seq<char>> {
    let params = crate::macros::methods::all_params(args);
    let with_item = RolesView { items: roles.items.push(stripped(method)), ..roles };
    if attrs.is_command {
        match params {
            Err(message) => Err(message),
            Ok(params) => Ok(
                RolesView {
                    commands: roles.commands.push(
                        command_of(method, params, CommandKindView::Plain),
                    ),
                    ..with_item
                },
            ),
        }
    } else if attrs.is_direct {
        match params {
            Err(message) => Err(message),
            Ok(params) => Ok(
                RolesView {
                    directs: roles.directs.push(
                        DirectView {
                            method_name: method.name,
                            params,
                            return_type: method.output,
                        },
                    ),
                    ..with_item
                },
            ),
        }
    } else if attrs.is_direct_mut {
        match params {
            Err(message) => Err(message),
            Ok(params) => Ok(
                RolesView {
                    direct_muts: roles.direct_muts.push(
                        DirectView {
                            method_name: method.name,
                            params,
                            return_type: method.output,
                        },
                    ),
                    ..with_item
                },
            ),
        }
    } else if let Some(op) = attrs.op {
        match params {
            Err(message) => Err(message),
            Ok(params) => Ok(
                RolesView {
                    commands: roles.commands.push(
                        command_of(method, params, op_kind(op, method.output)),
                    ),
                    ..with_item
                },
            ),
        }
    } else if let Some(source_field) = attrs.from_field {
        match crate::macros::methods::param_from(args, 0) {
            Err(message) => Err(message),
            Ok(None) => Err(EXPECTED_EVENT@),
            Ok(Some(param)) => Ok(
                RolesView {
                    events: roles.events.push(
                        EventHandlerView {
                            method_name: method.name,
                            source_field,
                            subscription: subscription_method(param.ty),
                        },
                    ),
                    ..with_item
                },
            ),
        }
    } else if let Some(source_field) = attrs.watch_field {
        Ok(
            RolesView {
                watches: roles.watches.push(
                    WatchHandlerView { method_name: method.name, source_field },
                ),
                ..with_item
            },
        )
    } else if attrs.is_task {
        match params {
            Err(message) => Err(message),
            Ok(params) => Ok(
                RolesView {
                    tasks: roles.tasks.push(
                        TaskView { method_name: method.name, extra_params: beyond_two(params) },
                    ),
                    ..with_item
                },
            ),
        }
    } else {
        Ok(RolesView { items: roles.items.push(item), ..roles })
    }
}

/// The parameters behind the first two, which are the handle and the
/// cancellation token.
pub open spec fn beyond_two(params: Seq<ParamView>) -> Seq<ParamView> {
    if params.len() <= 2 {
        seq![]
    } else {
        params.skip(2)
    }
}

fn skip_two(params: &Vec<Param>) -> (rest: Vec<Param>)
    ensures
        crate::text::views_of(rest@) == beyond_two(crate::text::views_of(params@)),
{
    let mut rest: Vec<Param> = Vec::new();
    let mut i: usize = 2;
    while i < params.len()
        invariant
            2 <= i,
            i <= params.len() || (i == 2 && params.len() <= 2),
            rest.len() == i - 2,
            forall|j: int| 0 <= j < rest.len() ==> (#[trigger] rest@[j])@ == params@[j + 2]@,
        decreases params.len() - i,
    {
        rest.push(params[i].clone());
        i = i + 1;
    }
    assert(crate::text::views_of(rest@) =~= beyond_two(crate::text::views_of(params@)));
    rest
}

fn render_op_kind(op: OpRole, output: &String) -> (kind: CommandKind)
    ensures
        kind@ == op_kind(op@, output@),
{
    match op {
        OpRole::Immediate => CommandKind::Immediate { output: output.clone() },
        OpRole::Deferred { execute, timeout } => CommandKind::Deferred {
            output: output.clone(),
            execute,
            timeout,
        },
    }
}

fn make_command(method: &MethodParts, params: Vec<Param>, kind: CommandKind) -> (command:
    CommandMethod)
    ensures
        command@ == command_of(method@, crate::text::views_of(params@), kind@),
{
    CommandMethod {
        method_name: method.name.clone(),
        variant_name: to_pascal_case(method.name.as_str()),
        params,
        kind,
    }
}

/// Adds one annotated method to the methods by their roles.
pub fn add_method(
    roles: Roles,
    item: &String,
    method: &MethodParts,
    attrs: MethodAttrs,
    args: &Vec<ArgParts>,
) -> (result: Result<Roles, String>)
    ensures
        match result {
            Ok(more) => with_method(
                roles@,
                item@,
                method@,
                attrs@,
                crate::text::views_of(args@),
            ) == Ok::<_, Seq<char>>(more@),
            Err(message) => with_method(
                roles@,
                item@,
                method@,
                attrs@,
                crate::text::views_of(args@),
            ) == Err::<RolesView, _>(message@),
        },
{
    let ghost before = roles@;
    let mut more = roles;
    let annotated = attrs.is_command || attrs.is_direct || attrs.is_direct_mut || attrs.op.is_some()
        || attrs.from_field.is_some() || attrs.watch_field.is_some() || attrs.is_task;
    let text = if annotated {
        strip_rillet_attrs(method)
    } else {
        item.clone()
    };
    let needs_params = attrs.is_command || attrs.is_direct || attrs.is_direct_mut
        || attrs.op.is_some() || (attrs.from_field.is_none() && attrs.watch_field.is_none()
        && attrs.is_task);
    more.items.push(text);
    assert(more@.items =~= before.items.push(text@));
    let params = if needs_params {
        match extract_all_params(args) {
            Ok(params) => params,
            Err(message) => {
                return Err(message);
            },
        }
    } else {
        Vec::new()
    };
    if attrs.is_command {
        let command = make_command(method, params, CommandKind::Plain);
        more.commands.push(command);
        assert(more@.commands =~= before.commands.push(command@));
    } else if attrs.is_direct || attrs.is_direct_mut {
        let direct = DirectMethod {
            method_name: method.name.clone(),
            params,
            return_type: method.output.clone(),
        };
        if attrs.is_direct {
            more.directs.push(direct);
            assert(more@.directs =~= before.directs.push(direct@));
        } else {
            more.direct_muts.push(direct);
            assert(more@.direct_muts =~= before.direct_muts.push(direct@));
        }
    } else if let Some(op) = attrs.op {
        let command = make_command(method, params, render_op_kind(op, &method.output));
        more.commands.push(command);
        assert(more@.commands =~= before.commands.push(command@));
    } else if let Some(source_field) = attrs.from_field {
        match extract_param(args) {
            Err(message) => {
                return Err(message);
            },
            Ok(None) => {
                return Err(EXPECTED_EVENT.to_owned());
            },
            Ok(Some(param)) => {
                let handler = EventHandler {
                    method_name: method.name.clone(),
                    source_field,
                    subscription: derive_subscription_method(param.ty.as_str()),
                };
                more.events.push(handler);
                assert(more@.events =~= before.events.push(handler@));
            },
        }
    } else if let Some(source_field) = attrs.watch_field {
        let handler = WatchHandler { method_name: method.name.clone(), source_field };
        more.watches.push(handler);
        assert(more@.watches =~= before.watches.push(handler@));
    } else if attrs.is_task {
        let task = TaskMethod {
            method_name: method.name.clone(),
            extra_params: skip_two(&params),
        };
        more.tasks.push(task);
        assert(more@.tasks =~= before.tasks.push(task@));
    }
    Ok(more)
}

/// No methods.
pub open spec fn no_methods() -> RolesView {
    RolesView {
        commands: seq![],
        directs: seq![],
        direct_muts: seq![],
        events: seq![],
        watches: seq![],
        tasks: seq![],
        items: seq![],
    }
}

/// The methods by their roles with one more item.
pub open spec fn with_item(roles: RolesView, item: Seq<char>) -> Result<RolesView, Seq<char>> {
    match crate::macros::syntax::method(item) {
        None => Ok(RolesView { items: roles.items.push(item), ..roles }),
        Some(method) => match crate::macros::methods::method_attrs(method.attrs) {
            Err(message) => Err(message),
            Ok(attrs) => with_method(
                roles,
                item,
                method,
                attrs,
                crate::macros::methods::args_of(method.inputs),
            ),
        },
    }
}

/// The methods among the first `n` items by their roles, or what is wrong
/// with the first item that is malformed.
pub open spec fn roles_of(items: Seq<Seq<char>>, n: nat) -> Result<RolesView, Seq<char>>
    decreases n,
{
    if n == 0 {
        Ok(no_methods())
    } else {
        match roles_of(items, (n - 1) as nat) {
            Err(message) => Err(message),
            Ok(roles) => with_item(roles, items[n - 1]),
        }
    }
}

proof fn lemma_roles_err(items: Seq<Seq<char>>, n: nat, m: nat)
    requires
        n <= m,
        roles_of(items, n) is Err,
    ensures
        roles_of(items, m) == roles_of(items, n),
    decreases m,
{
    if n < m {
        lemma_roles_err(items, n, (m - 1) as nat);
    }
}

fn add_item(roles: Roles, item: &String) -> (result: Result<Roles, String>)
    ensures
        match result {
            Ok(more) => with_item(roles@, item@) == Ok::<_, Seq<char>>(more@),
            Err(message) => with_item(roles@, item@) == Err::<RolesView, _>(message@),
        },
{
    match parse_method(item.as_str()) {
        None => {
            let ghost before = roles@;
            let mut more = roles;
            more.items.push(item.clone());
            assert(more@.items =~= before.items.push(item@));
            Ok(more)
        },
        Some(method) => match parse_method_attrs(&method.attrs) {
            Err(message) => Err(message),
            Ok(attrs) => add_method(roles, item, &method, attrs, &parse_args(&method.inputs)),
        },
    }
}

/// Sorts the methods among items by their roles.
pub fn collect_roles(items: &Vec<String>) -> (result: Result<Roles, String>)
    ensures
        match result {
            Ok(roles) => roles_of(crate::text::views_of(items@), items@.len()) == Ok::<
                _,
                Seq<char>,
            >(roles@),
            Err(message) => roles_of(crate::text::views_of(items@), items@.len()) == Err::<
                RolesView,
                _,
            >(message@),
        },
{
    let ghost texts = crate::text::views_of(items@);
    let mut roles = Roles {
        commands: Vec::new(),
        directs: Vec::new(),
        direct_muts: Vec::new(),
        events: Vec::new(),
        watches: Vec::new(),
        tasks: Vec::new(),
        items: Vec::new(),
    };
    proof {
        assert(roles@.commands =~= seq![]);
        assert(roles@.directs =~= seq![]);
        assert(roles@.direct_muts =~= seq![]);
        assert(roles@.events =~= seq![]);
        assert(roles@.watches =~= seq![]);
        assert(roles@.tasks =~= seq![]);
        assert(roles@.items =~= seq![]);
    }
    for i in 0..items.len()
        invariant
            texts == crate::text::views_of(items@),
            roles_of(texts, i as nat) == Ok::<_, Seq<char>>(roles@),
    {
        assert(texts[i as int] == items@[i as int]@);
        match add_item(roles, &items[i]) {
            Ok(more) => {
                roles = more;
            },
            Err(message) => {
                proof {
                    lemma_roles_err(texts, (i + 1) as nat, texts.len());
                }
                return Err(message);
            },
        }
    }
    Ok(roles)
}

/// A handle wrapper.
pub open spec fn direct_method(template: Seq<char>, direct: DirectView) -> Seq<char> {
    crate::text::filled(
        template,
        seq![
            direct.method_name,
            crate::macros::commands::param_decls(direct.params),
            direct.return_type,
            crate::macros::commands::param_names(direct.params),
        ],
    )
}

fn render_direct_method(template: &str, direct: &DirectMethod) -> (text: String)
    ensures
        text@ == direct_method(template@, direct@),
{
    fill4(
        template,
        direct.method_name.as_str(),
        render_param_decls(&direct.params).as_str(),
        direct.return_type.as_str(),
        render_param_names(&direct.params).as_str(),
    )
}

/// The handle wrappers for methods, if there are any.
pub open spec fn direct_methods(
    handle: Seq<char>,
    template: Seq<char>,
    directs: Seq<DirectView>,
) -> Seq<char> {
    if directs.len() == 0 {
        EMPTY@
    } else {
        crate::text::filled(
            IMPL@,
            seq![
                handle,
                crate::text::concat(
                    directs.map_values(|d: DirectView| direct_method(template, d)),
                ),
            ],
        )
    }
}

fn render_direct_methods(handle: &str, template: &str, directs: &Vec<DirectMethod>) -> (text:
    String)
    ensures
        text@ == direct_methods(handle@, template@, crate::text::views_of(directs@)),
{
    if directs.len() == 0 {
        return EMPTY.to_owned();
    }
    let method = |d: &DirectMethod| -> (text: String)
        ensures
            text@ == direct_method(template@, d@),
        { render_direct_method(template, d) };
    let methods = each(directs, method, Ghost(|d: DirectView| direct_method(template@, d)));
    fill2(IMPL, handle, methods.as_str())
}

/// Writes the handle wrappers for direct methods, which call the service's
/// method under the read lock.
pub fn generate_direct_methods(handle: &str, directs: &Vec<DirectMethod>) -> (text: String)
    ensures
        text@ == direct_methods(handle@, DIRECT_METHOD@, crate::text::views_of(directs@)),
{
    render_direct_methods(handle, DIRECT_METHOD, directs)
}

/// Writes the handle wrappers for direct_mut methods, which call the
/// service's method under the write lock and republish the view before
/// releasing it.
pub fn generate_direct_mut_methods(handle: &str, directs: &Vec<DirectMethod>) -> (text: String)
    ensures
        text@ == direct_methods(handle@, DIRECT_MUT_METHOD@, crate::text::views_of(directs@)),
{
    render_direct_methods(handle, DIRECT_MUT_METHOD, directs)
}

/// The names of the items that belong to a service.
pub open spec fn names_of(service: Seq<char>) -> NamesView {
    NamesView {
        service,
        handle: crate::text::filled(HANDLE_NAME@, seq![crate::macros::case::fragment(service)]),
        command: crate::text::filled(COMMAND_NAME@, seq![crate::macros::case::fragment(service)]),
    }
}

/// Derives the names of the items that belong to a service.
pub fn derive_names(service: String) -> (names: Names)
    ensures
        names@ == names_of(service@),
{
    let part = fragment_of(service.as_str());
    Names {
        handle: fill1(HANDLE_NAME, part.as_str()),
        command: fill1(COMMAND_NAME, part.as_str()),
        service,
    }
}

/// The handle struct.
pub open spec fn handle_struct(names: NamesView, count: nat) -> Seq<char> {
    crate::text::filled(
        HANDLE_STRUCT@,
        seq![
            names.handle,
            names.service,
            names.command,
            crate::macros::commands::usize_literal(count),
            crate::macros::case::fragment(names.service),
        ],
    )
}

fn render_handle_struct(names: &Names, count: usize) -> (text: String)
    ensures
        text@ == handle_struct(names@, count as nat),
{
    fill5(
        HANDLE_STRUCT,
        names.handle.as_str(),
        names.service.as_str(),
        names.command.as_str(),
        render_usize(count).as_str(),
        fragment_of(names.service.as_str()).as_str(),
    )
}

fn render_line(item: &String) -> (text: String)
    ensures
        text@ == crate::text::filled(LINE@, seq![item@]),
{
    fill1(LINE, item.as_str())
}

/// The impl block without the macros' attributes.
pub open spec fn clean_impl(
    service: Seq<char>,
    generics: Seq<char>,
    where_clause: Seq<char>,
    items: Seq<Seq<char>>,
) -> Seq<char> {
    crate::text::filled(
        CLEAN_IMPL@,
        seq![
            generics,
            service,
            where_clause,
            crate::text::concat(
                items.map_values(|item: Seq<char>| crate::text::filled(LINE@, seq![item])),
            ),
        ],
    )
}

fn render_clean_impl(
    service: &str,
    generics: &str,
    where_clause: &str,
    items: &Vec<String>,
) -> (text: String)
    ensures
        text@ == clean_impl(
            service@,
            generics@,
            where_clause@,
            crate::text::views_of(items@),
        ),
{
    let lines = each(
        items,
        render_line,
        Ghost(|item: Seq<char>| crate::text::filled(LINE@, seq![item])),
    );
    fill4(CLEAN_IMPL, generics, service, where_clause, lines.as_str())
}

/// What stands in place of an impl block whose methods are sorted by their
/// roles.
pub open spec fn generated(
    service: Seq<char>,
    generics: Seq<char>,
    where_clause: Seq<char>,
    roles: RolesView,
) -> Seq<char> {
    let names = names_of(service);
    crate::macros::commands::command_enum(names, roles.commands)
        + crate::macros::commands::execute_impl(names, roles.commands) + handle_struct(
        names,
        roles.commands.len(),
    ) + clean_impl(service, generics, where_clause, roles.items)
        + crate::macros::commands::handle_impl(names, roles.commands)
        + crate::macros::commands::conclude_impl(names, roles.commands)
        + crate::macros::spawn::spawn_impl(
        names,
        roles.commands,
        roles.events,
        roles.watches,
        roles.tasks,
    ) + direct_methods(names.handle, DIRECT_METHOD@, roles.directs) + direct_methods(
        names.handle,
        DIRECT_MUT_METHOD@,
        roles.direct_muts,
    ) + crate::macros::commands::metrics_impl(names, roles.commands)
}

/// Writes what stands in place of an impl block whose methods are sorted by
/// their roles.
pub fn generate(service: String, generics: &str, where_clause: &str, roles: &Roles) -> (text:
    String)
    ensures
        text@ == generated(service@, generics@, where_clause@, roles@),
{
    let names = derive_names(service);
    let infra = generate_command_infra(&names, &roles.commands);
    let mut text = infra.command_enum;
    text.append(infra.execute_impl.as_str());
    text.append(render_handle_struct(&names, roles.commands.len()).as_str());
    let clean = render_clean_impl(names.service.as_str(), generics, where_clause, &roles.items);
    text.append(clean.as_str());
    text.append(infra.handle_impl.as_str());
    text.append(infra.conclude_impl.as_str());
    let spawn = generate_spawn_impl(
        &names,
        &roles.commands,
        &roles.events,
        &roles.watches,
        &roles.tasks,
    );
    text.append(spawn.as_str());
    text.append(generate_direct_methods(names.handle.as_str(), &roles.directs).as_str());
    text.append(generate_direct_mut_methods(names.handle.as_str(), &roles.direct_muts).as_str());
    text.append(infra.metrics_impl.as_str());
    text
}

/// The name of a type that is a lone identifier.
pub open spec fn simple_name(ty: Seq<char>) -> Option<Seq<char>> {
    match crate::macros::syntax::typed(ty) {
        Ok(parts) => parts.ident,
        Err(_) => None,
    }
}

/// What stands in place of an impl block, or what is wrong with it.
pub open spec fn expanded_block(block: ImplPartsView) -> Result<Seq<char>, Seq<char>> {
    match simple_name(block.self_ty) {
        None => Err(EXPECTED_NAME@),
        Some(service) => match roles_of(block.items, block.items.len()) {
            Err(message) => Err(message),
            Ok(roles) => Ok(generated(service, block.generics, block.where_clause, roles)),
        },
    }
}

/// Expands an impl block whose parts are known.
pub fn expand_block(block: &ImplParts) -> (result: Result<String, String>)
    ensures
        match result {
            Ok(text) => expanded_block(block@) == Ok::<_, Seq<char>>(text@),
            Err(message) => expanded_block(block@) == Err::<Seq<char>, _>(message@),
        },
{
    let service = match parse_type(block.self_ty.as_str()) {
        Ok(parts) => parts.ident,
        Err(_) => None,
    };
    match service {
        None => Err(EXPECTED_NAME.to_owned()),
        Some(service) => match collect_roles(&block.items) {
            Err(message) => Err(message),
            Ok(roles) => Ok(
                generate(service, block.generics.as_str(), block.where_clause.as_str(), &roles),
            ),
        },
    }
}

/// What stands in place of the item that `#[rillet::handlers]` is put on, or
/// what is wrong with it.
pub open spec fn expanded(item: Seq<char>) -> Result<Seq<char>, Seq<char>> {
    match crate::macros::syntax::impl_block(item) {
        Err(message) => Err(message),
        Ok(block) => expanded_block(block),
    }
}

/// Expands `#[rillet::handlers]`.
pub fn expand(item: &str) -> (result: Result<String, String>)
    ensures
        match result {
            Ok(text) => expanded(item@) == Ok::<_, Seq<char>>(text@),
            Err(message) => expanded(item@) == Err::<Seq<char>, _>(message@),
        },
{
    match parse_impl(item) {
        Err(message) => Err(message),
        Ok(block) => expand_block(&block),
    }
}

} // verus!
