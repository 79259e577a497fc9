//! What holds of what stands in place of every impl block.

use crate::macros::commands::{CommandKindView, IMPL};
use crate::macros::handlers::{
    CLEAN_IMPL, COMMAND_NAME, DIRECT_METHOD, DIRECT_MUT_METHOD, DirectView, HANDLE_NAME,
    HANDLE_STRUCT, LINE, METHOD, ON_EVENT, RolesView, SPACED,
};
use crate::macros::methods::{MethodAttrsView, OpRoleView, ParamView};
use crate::macros::syntax::{ImplPartsView, MethodPartsView};
use vstd::prelude::*;

verus! {

/// The handle and the command enum are named after the service, each with its
/// own suffix.
pub proof fn law_names_of_a_service(service: Seq<char>)
    ensures
        crate::macros::handlers::names_of(service).service == service,
        crate::macros::handlers::names_of(service).handle == (crate::macros::case::fragment(service) + "Handle"@),
        crate::macros::handlers::names_of(service).command == (crate::macros::case::fragment(service) + "Command"@),
{
    let args = seq![crate::macros::case::fragment(service)];
    lemma_text_handle_name(args);
    lemma_text_command_name(args);
    assert(crate::macros::case::fragment(service)
        + "Handle"@ =~= (crate::macros::case::fragment(service) + "Handle"@));
    assert(crate::macros::case::fragment(service)
        + "Command"@ =~= (crate::macros::case::fragment(service) + "Command"@));
}

/// What stands in place of an impl block holds, for one and the same set of
/// names and one and the same list of commands, the command enum, its
/// execution, the handle and its queueing methods, the conclusions, the
/// statistics, the impl block itself, and the spawn methods over all commands,
/// events, watches and tasks.
pub proof fn law_generated_parts(
    service: Seq<char>,
    generics: Seq<char>,
    where_clause: Seq<char>,
    roles: RolesView,
)
    ensures
        crate::text::holds(
            crate::macros::handlers::generated(service, generics, where_clause, roles),
            crate::macros::commands::command_enum(
                crate::macros::handlers::names_of(service),
                roles.commands,
            ),
        ),
        crate::text::holds(
            crate::macros::handlers::generated(service, generics, where_clause, roles),
            crate::macros::commands::execute_impl(
                crate::macros::handlers::names_of(service),
                roles.commands,
            ),
        ),
        crate::text::holds(
            crate::macros::handlers::generated(service, generics, where_clause, roles),
            crate::macros::handlers::handle_struct(
                crate::macros::handlers::names_of(service),
                roles.commands.len(),
            ),
        ),
        crate::text::holds(
            crate::macros::handlers::generated(service, generics, where_clause, roles),
            crate::macros::handlers::clean_impl(service, generics, where_clause, roles.items),
        ),
        crate::text::holds(
            crate::macros::handlers::generated(service, generics, where_clause, roles),
            crate::macros::commands::handle_impl(
                crate::macros::handlers::names_of(service),
                roles.commands,
            ),
        ),
        crate::text::holds(
            crate::macros::handlers::generated(service, generics, where_clause, roles),
            crate::macros::commands::conclude_impl(
                crate::macros::handlers::names_of(service),
                roles.commands,
            ),
        ),
        crate::text::holds(
            crate::macros::handlers::generated(service, generics, where_clause, roles),
            crate::macros::spawn::spawn_impl(
                crate::macros::handlers::names_of(service),
                roles.commands,
                roles.events,
                roles.watches,
                roles.tasks,
            ),
        ),
        crate::text::holds(
            crate::macros::handlers::generated(service, generics, where_clause, roles),
            crate::macros::commands::metrics_impl(
                crate::macros::handlers::names_of(service),
                roles.commands,
            ),
        ),
{
    let t0 = crate::macros::commands::command_enum(crate::macros::handlers::names_of(service), roles.commands);
    let x1 = crate::macros::commands::execute_impl(crate::macros::handlers::names_of(service), roles.commands);
    let t1 = t0 + x1;
    crate::text::lemma_holds_ends(t0, x1);
    let x2 = crate::macros::handlers::handle_struct(crate::macros::handlers::names_of(service), roles.commands.len());
    let t2 = t1 + x2;
    crate::text::lemma_holds_ends(t1, x2);
    let x3 = crate::macros::handlers::clean_impl(service, generics, where_clause, roles.items);
    let t3 = t2 + x3;
    crate::text::lemma_holds_ends(t2, x3);
    let x4 = crate::macros::commands::handle_impl(crate::macros::handlers::names_of(service), roles.commands);
    let t4 = t3 + x4;
    crate::text::lemma_holds_ends(t3, x4);
    let x5 = crate::macros::commands::conclude_impl(crate::macros::handlers::names_of(service), roles.commands);
    let t5 = t4 + x5;
    crate::text::lemma_holds_ends(t4, x5);
    let x6 = crate::macros::spawn::spawn_impl(crate::macros::handlers::names_of(service), roles.commands, roles.events, roles.watches, roles.tasks);
    let t6 = t5 + x6;
    crate::text::lemma_holds_ends(t5, x6);
    let x7 = crate::macros::handlers::direct_methods(crate::macros::handlers::names_of(service).handle, DIRECT_METHOD@, roles.directs);
    let t7 = t6 + x7;
    crate::text::lemma_holds_ends(t6, x7);
    let x8 = crate::macros::handlers::direct_methods(crate::macros::handlers::names_of(service).handle, DIRECT_MUT_METHOD@, roles.direct_muts);
    let t8 = t7 + x8;
    crate::text::lemma_holds_ends(t7, x8);
    let x9 = crate::macros::commands::metrics_impl(crate::macros::handlers::names_of(service), roles.commands);
    let t9 = t8 + x9;
    crate::text::lemma_holds_ends(t8, x9);
    assert(crate::macros::handlers::generated(service, generics, where_clause, roles) == t9);
    crate::text::lemma_holds_through(t9, t8, t7);
    crate::text::lemma_holds_through(t9, t8, x8);
    crate::text::lemma_holds_through(t9, t7, t6);
    crate::text::lemma_holds_through(t9, t7, x7);
    crate::text::lemma_holds_through(t9, t6, t5);
    crate::text::lemma_holds_through(t9, t6, x6);
    crate::text::lemma_holds_through(t9, t5, t4);
    crate::text::lemma_holds_through(t9, t5, x5);
    crate::text::lemma_holds_through(t9, t4, t3);
    crate::text::lemma_holds_through(t9, t4, x4);
    crate::text::lemma_holds_through(t9, t3, t2);
    crate::text::lemma_holds_through(t9, t3, x3);
    crate::text::lemma_holds_through(t9, t2, t1);
    crate::text::lemma_holds_through(t9, t2, x2);
    crate::text::lemma_holds_through(t9, t1, t0);
    crate::text::lemma_holds_through(t9, t1, x1);
}

/// The handle wrappers stand in the whole text.
proof fn lemma_wrappers(
    service: Seq<char>,
    generics: Seq<char>,
    where_clause: Seq<char>,
    roles: RolesView,
)
    ensures
        crate::text::holds(
            crate::macros::handlers::generated(service, generics, where_clause, roles),
            crate::macros::handlers::direct_methods(
                crate::macros::handlers::names_of(service).handle,
                DIRECT_METHOD@,
                roles.directs,
            ),
        ),
        crate::text::holds(
            crate::macros::handlers::generated(service, generics, where_clause, roles),
            crate::macros::handlers::direct_methods(
                crate::macros::handlers::names_of(service).handle,
                DIRECT_MUT_METHOD@,
                roles.direct_muts,
            ),
        ),
{
    let t0 = crate::macros::commands::command_enum(crate::macros::handlers::names_of(service), roles.commands);
    let x1 = crate::macros::commands::execute_impl(crate::macros::handlers::names_of(service), roles.commands);
    let t1 = t0 + x1;
    crate::text::lemma_holds_ends(t0, x1);
    let x2 = crate::macros::handlers::handle_struct(crate::macros::handlers::names_of(service), roles.commands.len());
    let t2 = t1 + x2;
    crate::text::lemma_holds_ends(t1, x2);
    let x3 = crate::macros::handlers::clean_impl(service, generics, where_clause, roles.items);
    let t3 = t2 + x3;
    crate::text::lemma_holds_ends(t2, x3);
    let x4 = crate::macros::commands::handle_impl(crate::macros::handlers::names_of(service), roles.commands);
    let t4 = t3 + x4;
    crate::text::lemma_holds_ends(t3, x4);
    let x5 = crate::macros::commands::conclude_impl(crate::macros::handlers::names_of(service), roles.commands);
    let t5 = t4 + x5;
    crate::text::lemma_holds_ends(t4, x5);
    let x6 = crate::macros::spawn::spawn_impl(crate::macros::handlers::names_of(service), roles.commands, roles.events, roles.watches, roles.tasks);
    let t6 = t5 + x6;
    crate::text::lemma_holds_ends(t5, x6);
    let x7 = crate::macros::handlers::direct_methods(crate::macros::handlers::names_of(service).handle, DIRECT_METHOD@, roles.directs);
    let t7 = t6 + x7;
    crate::text::lemma_holds_ends(t6, x7);
    let x8 = crate::macros::handlers::direct_methods(crate::macros::handlers::names_of(service).handle, DIRECT_MUT_METHOD@, roles.direct_muts);
    let t8 = t7 + x8;
    crate::text::lemma_holds_ends(t7, x8);
    let x9 = crate::macros::commands::metrics_impl(crate::macros::handlers::names_of(service), roles.commands);
    let t9 = t8 + x9;
    crate::text::lemma_holds_ends(t8, x9);
    assert(crate::macros::handlers::generated(service, generics, where_clause, roles) == t9);
    crate::text::lemma_holds_through(t9, t8, t7);
    crate::text::lemma_holds_through(t9, t8, x8);
    crate::text::lemma_holds_through(t9, t7, t6);
    crate::text::lemma_holds_through(t9, t7, x7);
    crate::text::lemma_holds_through(t9, t6, t5);
    crate::text::lemma_holds_through(t9, t6, x6);
    crate::text::lemma_holds_through(t9, t5, t4);
    crate::text::lemma_holds_through(t9, t5, x5);
    crate::text::lemma_holds_through(t9, t4, t3);
    crate::text::lemma_holds_through(t9, t4, x4);
    crate::text::lemma_holds_through(t9, t3, t2);
    crate::text::lemma_holds_through(t9, t3, x3);
    crate::text::lemma_holds_through(t9, t2, t1);
    crate::text::lemma_holds_through(t9, t2, x2);
    crate::text::lemma_holds_through(t9, t1, t0);
    crate::text::lemma_holds_through(t9, t1, x1);
}

/// For every direct method the handle has a wrapper of the same name and
/// parameters that calls the service's method under the read lock and returns
/// what it returns.
pub proof fn law_direct_method_of_the_handle(
    service: Seq<char>,
    generics: Seq<char>,
    where_clause: Seq<char>,
    roles: RolesView,
    i: int,
)
    requires
        0 <= i < roles.directs.len(),
    ensures
        crate::text::holds(
            crate::macros::handlers::generated(service, generics, where_clause, roles),
            "/// Runs on the caller's thread under the service's read lock.
pub fn "@
                + roles.directs[i].method_name
                + "(&self, "@
                + crate::macros::commands::param_decls(roles.directs[i].params)
                + ") "@
                + roles.directs[i].return_type
                + " {
    self.state.read().unwrap()."@
                + roles.directs[i].method_name
                + "("@
                + crate::macros::commands::param_names(roles.directs[i].params)
                + ")
}
"@,
        ),
{
    let parts = roles.directs.map_values(|d: DirectView| crate::macros::handlers::direct_method(DIRECT_METHOD@, d));
    crate::text::lemma_concat_holds(parts, i);
    let args = seq![crate::macros::handlers::names_of(service).handle, crate::text::concat(parts)];
    lemma_text_impl(args);
    let dargs = seq![
        roles.directs[i].method_name,
        crate::macros::commands::param_decls(roles.directs[i].params),
        roles.directs[i].return_type,
        crate::macros::commands::param_names(roles.directs[i].params),
    ];
    lemma_text_direct_method(dargs);
    lemma_wrappers(service, generics, where_clause, roles);
    let all = crate::text::concat(parts);
    crate::text::lemma_holds_middle(" {
    "@, all, "
}
"@);
    crate::text::lemma_holds_through(
        crate::macros::handlers::direct_methods(crate::macros::handlers::names_of(service).handle, DIRECT_METHOD@, roles.directs),
        " {
    "@
            + all
            + "
}
"@,
        all,
    );
    let part = "/// Runs on the caller's thread under the service's read lock.
pub fn "@
        + roles.directs[i].method_name
        + "(&self, "@
        + crate::macros::commands::param_decls(roles.directs[i].params)
        + ") "@
        + roles.directs[i].return_type
        + " {
    self.state.read().unwrap()."@
        + roles.directs[i].method_name
        + "("@
        + crate::macros::commands::param_names(roles.directs[i].params)
        + ")
}
"@;
    crate::text::lemma_holds_through(
        crate::macros::handlers::direct_methods(crate::macros::handlers::names_of(service).handle, DIRECT_METHOD@, roles.directs),
        all,
        part,
    );
    crate::text::lemma_holds_through(
        crate::macros::handlers::generated(service, generics, where_clause, roles),
        crate::macros::handlers::direct_methods(crate::macros::handlers::names_of(service).handle, DIRECT_METHOD@, roles.directs),
        part,
    );
}

/// For every direct_mut method the handle has a wrapper of the same name and
/// parameters that calls the service's method under the write lock, publishes
/// the view and concludes operations before the lock is released, and returns
/// what the method returned.
pub proof fn law_direct_mut_method_of_the_handle(
    service: Seq<char>,
    generics: Seq<char>,
    where_clause: Seq<char>,
    roles: RolesView,
    i: int,
)
    requires
        0 <= i < roles.direct_muts.len(),
    ensures
        crate::text::holds(
            crate::macros::handlers::generated(service, generics, where_clause, roles),
            "/// Runs on the caller's thread under the service's write
/// lock, republishing the view before returning.
pub fn "@
                + roles.direct_muts[i].method_name
                + "(&self, "@
                + crate::macros::commands::param_decls(roles.direct_muts[i].params)
                + ") "@
                + roles.direct_muts[i].return_type
                + " {
    let mut s = self.state.write().unwrap();
    let result = s."@
                + roles.direct_muts[i].method_name
                + "("@
                + crate::macros::commands::param_names(roles.direct_muts[i].params)
                + ");
    s.__rillet_publish_view();
    s.__rillet_ops.flush_conclusions();
    result
}
"@,
        ),
{
    let parts = roles.direct_muts.map_values(|d: DirectView| crate::macros::handlers::direct_method(DIRECT_MUT_METHOD@, d));
    crate::text::lemma_concat_holds(parts, i);
    let args = seq![crate::macros::handlers::names_of(service).handle, crate::text::concat(parts)];
    lemma_text_impl(args);
    let dargs = seq![
        roles.direct_muts[i].method_name,
        crate::macros::commands::param_decls(roles.direct_muts[i].params),
        roles.direct_muts[i].return_type,
        crate::macros::commands::param_names(roles.direct_muts[i].params),
    ];
    lemma_text_direct_mut_method(dargs);
    lemma_wrappers(service, generics, where_clause, roles);
    let all = crate::text::concat(parts);
    crate::text::lemma_holds_middle(" {
    "@, all, "
}
"@);
    crate::text::lemma_holds_through(
        crate::macros::handlers::direct_methods(crate::macros::handlers::names_of(service).handle, DIRECT_MUT_METHOD@, roles.direct_muts),
        " {
    "@
            + all
            + "
}
"@,
        all,
    );
    let part = "/// Runs on the caller's thread under the service's write
/// lock, republishing the view before returning.
pub fn "@
        + roles.direct_muts[i].method_name
        + "(&self, "@
        + crate::macros::commands::param_decls(roles.direct_muts[i].params)
        + ") "@
        + roles.direct_muts[i].return_type
        + " {
    let mut s = self.state.write().unwrap();
    let result = s."@
        + roles.direct_muts[i].method_name
        + "("@
        + crate::macros::commands::param_names(roles.direct_muts[i].params)
        + ");
    s.__rillet_publish_view();
    s.__rillet_ops.flush_conclusions();
    result
}
"@;
    crate::text::lemma_holds_through(
        crate::macros::handlers::direct_methods(crate::macros::handlers::names_of(service).handle, DIRECT_MUT_METHOD@, roles.direct_muts),
        all,
        part,
    );
    crate::text::lemma_holds_through(
        crate::macros::handlers::generated(service, generics, where_clause, roles),
        crate::macros::handlers::direct_methods(crate::macros::handlers::names_of(service).handle, DIRECT_MUT_METHOD@, roles.direct_muts),
        part,
    );
}

/// The handle's wrappers are one for each direct method, in their order; without
/// any there is no code for them.
pub proof fn law_only_direct_methods_are_wrapped(handle: Seq<char>, template: Seq<char>, directs: Seq<DirectView>) -> (methods: Seq<Seq<char>>)
    ensures
        methods.len() == directs.len(),
        forall|i: int| 0 <= i < directs.len() ==> #[trigger] methods[i] == crate::text::filled(template, seq![directs[i].method_name, crate::macros::commands::param_decls(directs[i].params), directs[i].return_type, crate::macros::commands::param_names(directs[i].params)]),
        crate::macros::handlers::direct_methods(handle, template, directs) == (if directs.len() == 0 { ""@ } else { "impl "@ + handle + " {
    "@ + crate::text::concat(methods) + "
}
"@ }),
{
    let methods = directs.map_values(|d: DirectView| crate::macros::handlers::direct_method(template, d));
    let args = seq![handle, crate::text::concat(methods)];
    lemma_text_impl(args);
    methods
}

/// The handle shares the service's state, its command channel, one counter for
/// each command, the view slot, the gauges, the token and the tasks.
pub proof fn law_handle_struct(
    service: Seq<char>,
    generics: Seq<char>,
    where_clause: Seq<char>,
    roles: RolesView,
)
    ensures
        crate::text::holds(
            crate::macros::handlers::generated(service, generics, where_clause, roles),
            "/// Handle for interacting with the service.
#[derive(Clone)]
pub struct "@
                + (crate::macros::case::fragment(service) + "Handle"@)
                + " {
    state: rillet::runtime::Arc<rillet::runtime::RwLock<"@
                + service
                + ">>,
    cmd_tx: rillet::runtime::mpsc::Sender<"@
                + (crate::macros::case::fragment(service) + "Command"@)
                + ">,
    metrics: rillet::runtime::Arc<rillet::metrics::CommandMetrics<"@
                + (crate::text::digits(roles.commands.len()) + "usize"@)
                + ">>,
    __rillet_view: Option<rillet::runtime::Arc<dyn std::any::Any + Send + Sync>>,
    __rillet_gauges: __"@
                + crate::macros::case::fragment(service)
                + "Gauges,
    __rillet_cancel: rillet::runtime::CancellationToken,
    __rillet_tasks: rillet::runtime::Arc<rillet::runtime::TaskSet>,
}
"@,
        ),
{
    law_names_of_a_service(service);
    crate::macros::command_laws::law_usize_literal(roles.commands.len());
    let args = seq![
        crate::macros::handlers::names_of(service).handle,
        service,
        crate::macros::handlers::names_of(service).command,
        crate::macros::commands::usize_literal(roles.commands.len()),
        crate::macros::case::fragment(service),
    ];
    lemma_text_handle_struct(args);
    law_generated_parts(service, generics, where_clause, roles);
}

/// The impl block stays, with its generics and where clause and every item on a
/// line of its own, in their order.
pub proof fn law_impl_block_is_kept(
    service: Seq<char>,
    generics: Seq<char>,
    where_clause: Seq<char>,
    roles: RolesView,
) -> (lines: Seq<Seq<char>>)
    ensures
        lines.len() == roles.items.len(),
        forall|i: int| 0 <= i < roles.items.len() ==> #[trigger] lines[i] == roles.items[i] + "
"@,
        crate::text::holds(
            crate::macros::handlers::generated(service, generics, where_clause, roles),
            "impl "@
                + generics
                + " "@
                + service
                + " "@
                + where_clause
                + " {
    "@
                + crate::text::concat(lines)
                + "
}
"@,
        ),
{
    let lines = roles.items.map_values(|item: Seq<char>| crate::text::filled(LINE@, seq![item]));
    let args = seq![generics, service, where_clause, crate::text::concat(lines)];
    lemma_text_clean_impl(args);
    assert forall|i: int| 0 <= i < roles.items.len() implies #[trigger] lines[i] == roles.items[i]
        + "
"@ by {
        let iargs = seq![roles.items[i]];
        lemma_text_line(iargs);
    }
    law_generated_parts(service, generics, where_clause, roles);
    lines
}

/// A method keeps its visibility, signature and body and every attribute that
/// is not the macros' own, and loses the macros' own.
pub proof fn law_strip_keeps_the_method(method: MethodPartsView) -> (made: (Seq<Seq<char>>, Seq<Seq<char>>))
    requires
        method.body.len() > 0,
    ensures
        crate::macros::handlers::stripped(method) == crate::text::concat(made.0)
            + method.vis
            + " "@
            + method.defaultness
            + " "@
            + method.signature
            + " "@
            + (method.body.take(1) + crate::text::concat(made.1) + method.body.skip(1))
            + "
"@,
        made.0.len() == method.attrs.len(),
        forall|i: int| 0 <= i < method.attrs.len() ==> #[trigger] made.0[i] == (if crate::macros::attrs::rillet_attr(method.attrs[i]) is Other && !crate::macros::attrs::is_inner(method.attrs[i]) { method.attrs[i] + " "@ } else { ""@ }),
        made.1.len() == method.attrs.len(),
        forall|i: int| 0 <= i < method.attrs.len() ==> #[trigger] made.1[i] == (if crate::macros::attrs::rillet_attr(method.attrs[i]) is Other && crate::macros::attrs::is_inner(method.attrs[i]) { method.attrs[i] + " "@ } else { ""@ }),
{
    let outer = method.attrs.map_values(|attr: Seq<char>| crate::macros::handlers::outer_attr(attr));
    let inner = method.attrs.map_values(|attr: Seq<char>| crate::macros::handlers::inner_attr(attr));
    let args = seq![
        crate::text::concat(outer),
        method.vis,
        method.defaultness,
        method.signature,
        crate::macros::handlers::body_with(method.body, crate::text::concat(inner)),
    ];
    lemma_text_method(args);
    assert forall|i: int| 0 <= i < method.attrs.len() implies #[trigger] outer[i] == (if crate::macros::attrs::rillet_attr(method.attrs[i]) is Other && !crate::macros::attrs::is_inner(method.attrs[i]) { method.attrs[i] + " "@ } else { ""@ }) by {
        let aargs = seq![method.attrs[i]];
        lemma_text_spaced(aargs);
    }
    assert forall|i: int| 0 <= i < method.attrs.len() implies #[trigger] inner[i] == (if crate::macros::attrs::rillet_attr(method.attrs[i]) is Other && crate::macros::attrs::is_inner(method.attrs[i]) { method.attrs[i] + " "@ } else { ""@ }) by {
        let aargs = seq![method.attrs[i]];
        lemma_text_spaced(aargs);
    }
    (outer, inner)
}

/// A handler subscribes through the method named after the last segment of its
/// event's type, whatever stands in front of that segment.
pub proof fn law_subscription_of_a_type(ty: Seq<char>, segments: Seq<Seq<char>>)
    requires
        crate::macros::syntax::typed(ty) matches Ok(parts) && parts.segments == Some(segments),
        segments.len() > 0,
    ensures
        crate::macros::handlers::subscription_method(ty) == "on_"@
            + crate::macros::case::snake_case(crate::macros::case::spelling(segments.last())),
{
    let args = seq![
        crate::macros::case::snake_case(crate::macros::case::spelling(segments.last())),
    ];
    lemma_text_on_event(args);
}

/// A method of an impl block and the roles its attributes name, if the item
/// is a method.
pub open spec fn annotated(item: Seq<char>) -> Option<(MethodPartsView, MethodAttrsView)> {
    match crate::macros::syntax::method(item) {
        Some(method) => match crate::macros::methods::method_attrs(method.attrs) {
            Ok(attrs) => Some((method, attrs)),
            Err(_) => None,
        },
        None => None,
    }
}

/// Whether attributes name a role that runs as a command.
pub open spec fn names_command(attrs: MethodAttrsView) -> bool {
    attrs.is_command || !attrs.is_direct && !attrs.is_direct_mut && attrs.op is Some
}

/// Whether attributes name no role of those that run on a caller's call.
pub open spec fn names_no_call(attrs: MethodAttrsView) -> bool {
    !attrs.is_command && !attrs.is_direct && !attrs.is_direct_mut && attrs.op is None
}

/// Whether attributes name any role.
pub open spec fn names_role(attrs: MethodAttrsView) -> bool {
    !names_no_call(attrs) || attrs.from_field is Some || attrs.watch_field is Some || attrs.is_task
}

/// How many of the first `n` items are methods with a role.
pub open spec fn role_count(items: Seq<Seq<char>>, n: nat) -> nat
    decreases n,
{
    if n == 0 {
        0
    } else {
        let before = role_count(items, (n - 1) as nat);
        match annotated(items[n - 1]) {
            Some((_, attrs)) => if names_role(attrs) {
                before + 1
            } else {
                before
            },
            None => before,
        }
    }
}

/// The roles of some items are a prefix of those of more items.
proof fn lemma_roles_grow(items: Seq<Seq<char>>, n: nat, m: nat)
    requires
        n <= m,
        crate::macros::handlers::roles_of(items, m) is Ok,
    ensures
        crate::macros::handlers::roles_of(items, n) is Ok,
        ({
            let few = crate::macros::handlers::roles_of(items, n)->Ok_0;
            let many = crate::macros::handlers::roles_of(items, m)->Ok_0;
            &&& few.commands.is_prefix_of(many.commands)
            &&& few.directs.is_prefix_of(many.directs)
            &&& few.direct_muts.is_prefix_of(many.direct_muts)
            &&& few.events.is_prefix_of(many.events)
            &&& few.watches.is_prefix_of(many.watches)
            &&& few.tasks.is_prefix_of(many.tasks)
            &&& few.items.is_prefix_of(many.items)
        }),
    decreases m,
{
    if n < m {
        lemma_roles_grow(items, n, (m - 1) as nat);
    }
}

/// Every item of an impl block stays: a method with a role without the
/// macros' attributes, any other item as it is.
pub proof fn law_every_item_stays(items: Seq<Seq<char>>, roles: RolesView, k: int)
    requires
        crate::macros::handlers::roles_of(items, items.len()) == Ok::<RolesView, Seq<char>>(roles),
        0 <= k < items.len(),
    ensures
        roles.items.len() == items.len(),
        roles.items[k] == (match annotated(items[k]) {
            Some((method, attrs)) => if names_role(attrs) {
                crate::macros::handlers::stripped(method)
            } else {
                items[k]
            },
            None => items[k],
        }),
{
    lemma_roles_grow(items, k as nat, items.len());
    lemma_roles_grow(items, (k + 1) as nat, items.len());
    lemma_item_count(items, items.len());
    lemma_item_count(items, k as nat);
    lemma_item_count(items, (k + 1) as nat);
    let before = crate::macros::handlers::roles_of(items, k as nat)->Ok_0;
    let few = crate::macros::handlers::roles_of(items, (k + 1) as nat)->Ok_0;
    assert(crate::macros::handlers::roles_of(items, (k + 1) as nat)
        == crate::macros::handlers::with_item(before, items[k]));
    assert(few.items[k] == roles.items.subrange(0, few.items.len() as int)[k]);
}

proof fn lemma_item_count(items: Seq<Seq<char>>, n: nat)
    requires
        crate::macros::handlers::roles_of(items, n) is Ok || n == 0,
    ensures
        crate::macros::handlers::roles_of(items, n) matches Ok(roles) ==> roles.items.len() == n,
    decreases n,
{
    if n > 0 {
        lemma_roles_grow(items, (n - 1) as nat, n);
        lemma_item_count(items, (n - 1) as nat);
    }
}

/// Each method with a role has exactly one: the roles of an impl block hold
/// as many methods as the block has methods with a role.
pub proof fn law_each_role_is_taken_once(items: Seq<Seq<char>>, roles: RolesView, n: nat)
    requires
        n <= items.len(),
        crate::macros::handlers::roles_of(items, n) == Ok::<RolesView, Seq<char>>(roles),
    ensures
        roles.commands.len() + roles.directs.len() + roles.direct_muts.len() + roles.events.len()
            + roles.watches.len() + roles.tasks.len() == role_count(items, n),
    decreases n,
{
    if n > 0 {
        lemma_roles_grow(items, (n - 1) as nat, n);
        law_each_role_is_taken_once(
            items,
            crate::macros::handlers::roles_of(items, (n - 1) as nat)->Ok_0,
            (n - 1) as nat,
        );
    }
}

/// A method marked as a command becomes a command of its name and parameters.
pub proof fn law_a_command_is_queued(items: Seq<Seq<char>>, roles: RolesView, k: int) -> (j: int)
    requires
        crate::macros::handlers::roles_of(items, items.len()) == Ok::<RolesView, Seq<char>>(roles),
        0 <= k < items.len(),
        annotated(items[k]) is Some,
        annotated(items[k])->Some_0.1.is_command,
    ensures
        0 <= j < roles.commands.len(),
        roles.commands[j].method_name == annotated(items[k])->Some_0.0.name,
        roles.commands[j].variant_name == crate::macros::case::pascal_case(crate::macros::case::spelling(annotated(items[k])->Some_0.0.name)),
        crate::macros::methods::all_params(crate::macros::methods::args_of(annotated(items[k])->Some_0.0.inputs)) == Ok::<Seq<ParamView>, Seq<char>>(roles.commands[j].params),
        roles.commands[j].kind is Plain,
{
    lemma_roles_grow(items, k as nat, items.len());
    lemma_roles_grow(items, (k + 1) as nat, items.len());
    let before = crate::macros::handlers::roles_of(items, k as nat)->Ok_0;
    let few = crate::macros::handlers::roles_of(items, (k + 1) as nat)->Ok_0;
    assert(crate::macros::handlers::roles_of(items, (k + 1) as nat)
        == crate::macros::handlers::with_item(before, items[k]));
    let j = few.commands.len() - 1;
    assert(few.commands[j] == roles.commands.subrange(0, few.commands.len() as int)[j]);
    j
}

/// A method marked as an immediate op becomes a command that concludes an
/// operation with what the method returns.
pub proof fn law_an_immediate_op_is_queued(items: Seq<Seq<char>>, roles: RolesView, k: int) -> (j: int)
    requires
        crate::macros::handlers::roles_of(items, items.len()) == Ok::<RolesView, Seq<char>>(roles),
        0 <= k < items.len(),
        annotated(items[k]) is Some,
        !annotated(items[k])->Some_0.1.is_command,
        !annotated(items[k])->Some_0.1.is_direct,
        !annotated(items[k])->Some_0.1.is_direct_mut,
        annotated(items[k])->Some_0.1.op == Some(OpRoleView::Immediate),
    ensures
        0 <= j < roles.commands.len(),
        roles.commands[j].method_name == annotated(items[k])->Some_0.0.name,
        roles.commands[j].variant_name == crate::macros::case::pascal_case(crate::macros::case::spelling(annotated(items[k])->Some_0.0.name)),
        crate::macros::methods::all_params(crate::macros::methods::args_of(annotated(items[k])->Some_0.0.inputs)) == Ok::<Seq<ParamView>, Seq<char>>(roles.commands[j].params),
        roles.commands[j].kind == (CommandKindView::Immediate { output: annotated(items[k])->Some_0.0.output }),
{
    lemma_roles_grow(items, k as nat, items.len());
    lemma_roles_grow(items, (k + 1) as nat, items.len());
    let before = crate::macros::handlers::roles_of(items, k as nat)->Ok_0;
    let few = crate::macros::handlers::roles_of(items, (k + 1) as nat)->Ok_0;
    assert(crate::macros::handlers::roles_of(items, (k + 1) as nat)
        == crate::macros::handlers::with_item(before, items[k]));
    let j = few.commands.len() - 1;
    assert(few.commands[j] == roles.commands.subrange(0, few.commands.len() as int)[j]);
    j
}

/// A method marked as a deferred op becomes a command that parks an operation
/// with the timeout and runs the execute method that its attribute names.
pub proof fn law_a_deferred_op_is_queued(items: Seq<Seq<char>>, roles: RolesView, k: int) -> (j: int)
    requires
        crate::macros::handlers::roles_of(items, items.len()) == Ok::<RolesView, Seq<char>>(roles),
        0 <= k < items.len(),
        annotated(items[k]) is Some,
        !annotated(items[k])->Some_0.1.is_command,
        !annotated(items[k])->Some_0.1.is_direct,
        !annotated(items[k])->Some_0.1.is_direct_mut,
        annotated(items[k])->Some_0.1.op matches Some(OpRoleView::Deferred { execute, timeout }),
    ensures
        0 <= j < roles.commands.len(),
        roles.commands[j].method_name == annotated(items[k])->Some_0.0.name,
        roles.commands[j].variant_name == crate::macros::case::pascal_case(crate::macros::case::spelling(annotated(items[k])->Some_0.0.name)),
        crate::macros::methods::all_params(crate::macros::methods::args_of(annotated(items[k])->Some_0.0.inputs)) == Ok::<Seq<ParamView>, Seq<char>>(roles.commands[j].params),
        roles.commands[j].kind is Deferred,
        roles.commands[j].kind->Deferred_output == annotated(items[k])->Some_0.0.output,
        roles.commands[j].kind->Deferred_execute == (annotated(items[k])->Some_0.1.op->Some_0)->execute,
        roles.commands[j].kind->Deferred_timeout == (annotated(items[k])->Some_0.1.op->Some_0)->timeout,
{
    lemma_roles_grow(items, k as nat, items.len());
    lemma_roles_grow(items, (k + 1) as nat, items.len());
    let before = crate::macros::handlers::roles_of(items, k as nat)->Ok_0;
    let few = crate::macros::handlers::roles_of(items, (k + 1) as nat)->Ok_0;
    assert(crate::macros::handlers::roles_of(items, (k + 1) as nat)
        == crate::macros::handlers::with_item(before, items[k]));
    let j = few.commands.len() - 1;
    assert(few.commands[j] == roles.commands.subrange(0, few.commands.len() as int)[j]);
    j
}

/// A method marked as direct, and not as a command, is wrapped as direct.
pub proof fn law_a_direct_method_is_wrapped(items: Seq<Seq<char>>, roles: RolesView, k: int) -> (j: int)
    requires
        crate::macros::handlers::roles_of(items, items.len()) == Ok::<RolesView, Seq<char>>(roles),
        0 <= k < items.len(),
        annotated(items[k]) is Some,
        !annotated(items[k])->Some_0.1.is_command,
        annotated(items[k])->Some_0.1.is_direct,
    ensures
        0 <= j < roles.directs.len(),
        roles.directs[j].method_name == annotated(items[k])->Some_0.0.name,
        crate::macros::methods::all_params(crate::macros::methods::args_of(annotated(items[k])->Some_0.0.inputs)) == Ok::<Seq<ParamView>, Seq<char>>(roles.directs[j].params),
        roles.directs[j].return_type == annotated(items[k])->Some_0.0.output,
{
    lemma_roles_grow(items, k as nat, items.len());
    lemma_roles_grow(items, (k + 1) as nat, items.len());
    let before = crate::macros::handlers::roles_of(items, k as nat)->Ok_0;
    let few = crate::macros::handlers::roles_of(items, (k + 1) as nat)->Ok_0;
    assert(crate::macros::handlers::roles_of(items, (k + 1) as nat)
        == crate::macros::handlers::with_item(before, items[k]));
    let j = few.directs.len() - 1;
    assert(few.directs[j] == roles.directs.subrange(0, few.directs.len() as int)[j]);
    j
}

/// A method marked as direct_mut, and as neither a command nor direct, is
/// wrapped as direct_mut.
pub proof fn law_a_direct_mut_method_is_wrapped(items: Seq<Seq<char>>, roles: RolesView, k: int) -> (j: int)
    requires
        crate::macros::handlers::roles_of(items, items.len()) == Ok::<RolesView, Seq<char>>(roles),
        0 <= k < items.len(),
        annotated(items[k]) is Some,
        !annotated(items[k])->Some_0.1.is_command,
        !annotated(items[k])->Some_0.1.is_direct,
        annotated(items[k])->Some_0.1.is_direct_mut,
    ensures
        0 <= j < roles.direct_muts.len(),
        roles.direct_muts[j].method_name == annotated(items[k])->Some_0.0.name,
        crate::macros::methods::all_params(crate::macros::methods::args_of(annotated(items[k])->Some_0.0.inputs)) == Ok::<Seq<ParamView>, Seq<char>>(roles.direct_muts[j].params),
        roles.direct_muts[j].return_type == annotated(items[k])->Some_0.0.output,
{
    lemma_roles_grow(items, k as nat, items.len());
    lemma_roles_grow(items, (k + 1) as nat, items.len());
    let before = crate::macros::handlers::roles_of(items, k as nat)->Ok_0;
    let few = crate::macros::handlers::roles_of(items, (k + 1) as nat)->Ok_0;
    assert(crate::macros::handlers::roles_of(items, (k + 1) as nat)
        == crate::macros::handlers::with_item(before, items[k]));
    let j = few.direct_muts.len() - 1;
    assert(few.direct_muts[j] == roles.direct_muts.subrange(0, few.direct_muts.len() as int)[j]);
    j
}

/// A method marked with a source of events handles the events of its first
/// parameter's type that the source emits.
pub proof fn law_a_from_method_handles_events(items: Seq<Seq<char>>, roles: RolesView, k: int) -> (j: int)
    requires
        crate::macros::handlers::roles_of(items, items.len()) == Ok::<RolesView, Seq<char>>(roles),
        0 <= k < items.len(),
        annotated(items[k]) is Some,
        names_no_call(annotated(items[k])->Some_0.1),
        annotated(items[k])->Some_0.1.from_field is Some,
    ensures
        0 <= j < roles.events.len(),
        roles.events[j].method_name == annotated(items[k])->Some_0.0.name,
        Some(roles.events[j].source_field) == annotated(items[k])->Some_0.1.from_field,
        crate::macros::methods::param_from(crate::macros::methods::args_of(annotated(items[k])->Some_0.0.inputs), 0) matches Ok(Some(param)) && roles.events[j].subscription == crate::macros::handlers::subscription_method(param.ty),
{
    lemma_roles_grow(items, k as nat, items.len());
    lemma_roles_grow(items, (k + 1) as nat, items.len());
    let before = crate::macros::handlers::roles_of(items, k as nat)->Ok_0;
    let few = crate::macros::handlers::roles_of(items, (k + 1) as nat)->Ok_0;
    assert(crate::macros::handlers::roles_of(items, (k + 1) as nat)
        == crate::macros::handlers::with_item(before, items[k]));
    let j = few.events.len() - 1;
    assert(few.events[j] == roles.events.subrange(0, few.events.len() as int)[j]);
    j
}

/// A method marked with a source of views, and with no source of events,
/// handles the views that the source publishes.
pub proof fn law_a_watch_method_handles_views(items: Seq<Seq<char>>, roles: RolesView, k: int) -> (j: int)
    requires
        crate::macros::handlers::roles_of(items, items.len()) == Ok::<RolesView, Seq<char>>(roles),
        0 <= k < items.len(),
        annotated(items[k]) is Some,
        names_no_call(annotated(items[k])->Some_0.1),
        annotated(items[k])->Some_0.1.from_field is None,
        annotated(items[k])->Some_0.1.watch_field is Some,
    ensures
        0 <= j < roles.watches.len(),
        roles.watches[j].method_name == annotated(items[k])->Some_0.0.name,
        Some(roles.watches[j].source_field) == annotated(items[k])->Some_0.1.watch_field,
{
    lemma_roles_grow(items, k as nat, items.len());
    lemma_roles_grow(items, (k + 1) as nat, items.len());
    let before = crate::macros::handlers::roles_of(items, k as nat)->Ok_0;
    let few = crate::macros::handlers::roles_of(items, (k + 1) as nat)->Ok_0;
    assert(crate::macros::handlers::roles_of(items, (k + 1) as nat)
        == crate::macros::handlers::with_item(before, items[k]));
    let j = few.watches.len() - 1;
    assert(few.watches[j] == roles.watches.subrange(0, few.watches.len() as int)[j]);
    j
}

/// A method marked as a task, and with no other role, is spawned; its context
/// are its parameters behind the handle and the token.
pub proof fn law_a_task_is_spawned(items: Seq<Seq<char>>, roles: RolesView, k: int) -> (j: int)
    requires
        crate::macros::handlers::roles_of(items, items.len()) == Ok::<RolesView, Seq<char>>(roles),
        0 <= k < items.len(),
        annotated(items[k]) is Some,
        names_no_call(annotated(items[k])->Some_0.1),
        annotated(items[k])->Some_0.1.from_field is None,
        annotated(items[k])->Some_0.1.watch_field is None,
        annotated(items[k])->Some_0.1.is_task,
    ensures
        0 <= j < roles.tasks.len(),
        roles.tasks[j].method_name == annotated(items[k])->Some_0.0.name,
        crate::macros::methods::all_params(crate::macros::methods::args_of(annotated(items[k])->Some_0.0.inputs)) is Ok,
        roles.tasks[j].extra_params.len() == (if crate::macros::methods::all_params(crate::macros::methods::args_of(annotated(items[k])->Some_0.0.inputs))->Ok_0.len() <= 2 { 0 } else { crate::macros::methods::all_params(crate::macros::methods::args_of(annotated(items[k])->Some_0.0.inputs))->Ok_0.len() - 2 }),
        forall|p: int| 0 <= p < roles.tasks[j].extra_params.len() ==> #[trigger] roles.tasks[j].extra_params[p] == crate::macros::methods::all_params(crate::macros::methods::args_of(annotated(items[k])->Some_0.0.inputs))->Ok_0[p + 2],
{
    lemma_roles_grow(items, k as nat, items.len());
    lemma_roles_grow(items, (k + 1) as nat, items.len());
    let before = crate::macros::handlers::roles_of(items, k as nat)->Ok_0;
    let few = crate::macros::handlers::roles_of(items, (k + 1) as nat)->Ok_0;
    assert(crate::macros::handlers::roles_of(items, (k + 1) as nat)
        == crate::macros::handlers::with_item(before, items[k]));
    let j = few.tasks.len() - 1;
    assert(few.tasks[j] == roles.tasks.subrange(0, few.tasks.len() as int)[j]);
    j
}

/// What is wrong with the first malformed method is what is wrong with the
/// impl block, and a block whose items are all in order expands.
pub proof fn law_a_block_expands(item: Seq<char>, block: ImplPartsView, service: Seq<char>, k: int)
    requires
        crate::macros::syntax::impl_block(item) == Ok::<ImplPartsView, Seq<char>>(block),
        crate::macros::handlers::simple_name(block.self_ty) == Some(service),
        0 <= k <= block.items.len(),
    ensures
        crate::macros::handlers::roles_of(block.items, block.items.len()) matches Ok(roles)
            ==> crate::macros::handlers::expanded(item) == Ok::<Seq<char>, Seq<char>>(
            crate::macros::handlers::generated(
                service,
                block.generics,
                block.where_clause,
                roles,
            ),
        ),
        crate::macros::handlers::roles_of(block.items, k as nat) matches Err(message)
            ==> crate::macros::handlers::expanded(item) == Err::<Seq<char>, Seq<char>>(message),
{
    lemma_first_error(block.items, k as nat, block.items.len());
}

proof fn lemma_first_error(items: Seq<Seq<char>>, n: nat, m: nat)
    requires
        n <= m,
    ensures
        crate::macros::handlers::roles_of(items, n) is Err ==> crate::macros::handlers::roles_of(
            items,
            m,
        ) == crate::macros::handlers::roles_of(items, n),
    decreases m,
{
    if n < m {
        lemma_first_error(items, n, (m - 1) as nat);
    }
}

/// An impl block for more than a lone name is refused, and so is what is no
/// impl block, with what is wrong with it.
pub proof fn law_only_blocks_of_a_name_expand(item: Seq<char>)
    ensures
        match crate::macros::syntax::impl_block(item) {
            Err(message) => crate::macros::handlers::expanded(item) == Err::<Seq<char>, Seq<char>>(
                message,
            ),
            Ok(block) => match crate::macros::syntax::typed(block.self_ty) {
                Ok(parts) => parts.ident is None ==> crate::macros::handlers::expanded(item)
                    == Err::<Seq<char>, Seq<char>>("expected a simple type name"@),
                Err(_) => crate::macros::handlers::expanded(item) == Err::<Seq<char>, Seq<char>>(
                    "expected a simple type name"@,
                ),
            },
        },
{
}

/// An event handler without an event is refused.
pub proof fn law_an_event_handler_needs_an_event(roles: RolesView, item: Seq<char>)
    requires
        annotated(item) is Some,
        names_no_call(annotated(item)->Some_0.1),
        annotated(item)->Some_0.1.from_field is Some,
        crate::macros::methods::param_from(
            crate::macros::methods::args_of(annotated(item)->Some_0.0.inputs),
            0,
        ) == Ok::<Option<ParamView>, Seq<char>>(None),
    ensures
        crate::macros::handlers::with_item(roles, item) == Err::<RolesView, Seq<char>>(
            "event handler must have an event parameter"@,
        ),
{
}

/// What the parts of an impl block's code hold, the expansion of the block
/// holds: its spawn methods, its commands and their execution, the handle's
/// methods and the conclusions.
pub proof fn law_expansion_holds_its_parts(
    item: Seq<char>,
    block: ImplPartsView,
    service: Seq<char>,
    roles: RolesView,
    part: Seq<char>,
)
    requires
        crate::macros::syntax::impl_block(item) == Ok::<ImplPartsView, Seq<char>>(block),
        crate::macros::handlers::simple_name(block.self_ty) == Some(service),
        crate::macros::handlers::roles_of(block.items, block.items.len()) == Ok::<
            RolesView,
            Seq<char>,
        >(roles),
        ({
            let names = crate::macros::handlers::names_of(service);
            ||| crate::text::holds(
                crate::macros::spawn::spawn_impl(
                    names,
                    roles.commands,
                    roles.events,
                    roles.watches,
                    roles.tasks,
                ),
                part,
            )
            ||| crate::text::holds(
                crate::macros::commands::command_enum(names, roles.commands),
                part,
            )
            ||| crate::text::holds(
                crate::macros::commands::execute_impl(names, roles.commands),
                part,
            )
            ||| crate::text::holds(crate::macros::commands::handle_impl(names, roles.commands), part)
            ||| crate::text::holds(
                crate::macros::commands::conclude_impl(names, roles.commands),
                part,
            )
        }),
    ensures
        crate::macros::handlers::expanded(item) is Ok,
        crate::text::holds(crate::macros::handlers::expanded(item)->Ok_0, part),
{
    let names = crate::macros::handlers::names_of(service);
    let text = crate::macros::handlers::generated(
        service,
        block.generics,
        block.where_clause,
        roles,
    );
    law_a_block_expands(item, block, service, 0);
    law_generated_parts(service, block.generics, block.where_clause, roles);
    let spawns = crate::macros::spawn::spawn_impl(
        names,
        roles.commands,
        roles.events,
        roles.watches,
        roles.tasks,
    );
    let variants = crate::macros::commands::command_enum(names, roles.commands);
    let execution = crate::macros::commands::execute_impl(names, roles.commands);
    let methods = crate::macros::commands::handle_impl(names, roles.commands);
    let conclusions = crate::macros::commands::conclude_impl(names, roles.commands);
    if crate::text::holds(spawns, part) {
        crate::text::lemma_holds_through(text, spawns, part);
    } else if crate::text::holds(variants, part) {
        crate::text::lemma_holds_through(text, variants, part);
    } else if crate::text::holds(execution, part) {
        crate::text::lemma_holds_through(text, execution, part);
    } else if crate::text::holds(methods, part) {
        crate::text::lemma_holds_through(text, methods, part);
    } else {
        crate::text::lemma_holds_through(text, conclusions, part);
    }
}

/// What the text of `HANDLE_NAME` says, whatever fills it.
proof fn lemma_text_handle_name(args: Seq<Seq<char>>)
    requires
        args.len() >= 1,
    ensures
        crate::text::filled(HANDLE_NAME@, args) == args[0] + "Handle"@,
{
    reveal_strlit("$0Handle");
    reveal_strlit("Handle");
    let a = Seq::<char>::empty();
    let b = "Handle"@;
    assert(HANDLE_NAME@ =~= a + crate::text::hole(0) + b);
    crate::text::lemma_fills1(a, 0, b, args);
    assert(crate::text::filled(HANDLE_NAME@, args) =~= args[0] + "Handle"@);
}

/// What the text of `COMMAND_NAME` says, whatever fills it.
proof fn lemma_text_command_name(args: Seq<Seq<char>>)
    requires
        args.len() >= 1,
    ensures
        crate::text::filled(COMMAND_NAME@, args) == args[0] + "Command"@,
{
    reveal_strlit("$0Command");
    reveal_strlit("Command");
    let a = Seq::<char>::empty();
    let b = "Command"@;
    assert(COMMAND_NAME@ =~= a + crate::text::hole(0) + b);
    crate::text::lemma_fills1(a, 0, b, args);
    assert(crate::text::filled(COMMAND_NAME@, args) =~= args[0] + "Command"@);
}

/// What the text of `IMPL` says, whatever fills it.
proof fn lemma_text_impl(args: Seq<Seq<char>>)
    requires
        args.len() >= 2,
    ensures
        crate::text::holds(crate::text::filled(IMPL@, args), " {
    "@ + args[1] + "
}
"@),
        crate::text::filled(IMPL@, args) == "impl "@ + args[0] + " {
    "@ + args[1] + "
}
"@,
{
    reveal_strlit("impl $0 {
    $1
}
");
    reveal_strlit(" {
    ");
    reveal_strlit("
}
");
    let a = " {
    "@;
    let b = "
}
"@;
    assert(IMPL@.subrange(7, 19) =~= a + crate::text::hole(1) + b);
    crate::text::lemma_reads1(IMPL@, 7, a, 1, b, args);
    reveal_strlit("impl ");
    let a = "impl "@;
    let b = " {
    "@;
    let c = "
}
"@;
    assert(IMPL@ =~= a + crate::text::hole(0) + b + crate::text::hole(1) + c);
    crate::text::lemma_fills2(a, 0, b, 1, c, args);
}

/// What the text of `DIRECT_METHOD` says, whatever fills it.
proof fn lemma_text_direct_method(args: Seq<Seq<char>>)
    requires
        args.len() >= 4,
    ensures
        crate::text::filled(DIRECT_METHOD@, args) == "/// Runs on the caller's thread under the service's read lock.
pub fn "@
            + args[0]
            + "(&self, "@
            + args[1]
            + ") "@
            + args[2]
            + " {
    self.state.read().unwrap()."@
            + args[0]
            + "("@
            + args[3]
            + ")
}
"@,
{
    reveal_strlit("/// Runs on the caller's thread under the service's read lock.
pub fn $0(&self, $1) $2 {
    self.state.read().unwrap().$0($3)
}
");
    reveal_strlit("/// Runs on the caller's thread under the service's read lock.
pub fn ");
    reveal_strlit("(&self, ");
    reveal_strlit(") ");
    reveal_strlit(" {
    self.state.read().unwrap().");
    reveal_strlit("(");
    reveal_strlit(")
}
");
    let a = "/// Runs on the caller's thread under the service's read lock.
pub fn "@;
    let b = "(&self, "@;
    let c = ") "@;
    let d = " {
    self.state.read().unwrap()."@;
    let e = "("@;
    let f = ")
}
"@;
    assert(DIRECT_METHOD@ =~= a
        + crate::text::hole(0)
        + b
        + crate::text::hole(1)
        + c
        + crate::text::hole(2)
        + d
        + crate::text::hole(0)
        + e
        + crate::text::hole(3)
        + f);
    crate::text::lemma_fills5(a, 0, b, 1, c, 2, d, 0, e, 3, f, args);
}

/// What the text of `DIRECT_MUT_METHOD` says, whatever fills it.
proof fn lemma_text_direct_mut_method(args: Seq<Seq<char>>)
    requires
        args.len() >= 4,
    ensures
        crate::text::filled(DIRECT_MUT_METHOD@, args) == "/// Runs on the caller's thread under the service's write
/// lock, republishing the view before returning.
pub fn "@
            + args[0]
            + "(&self, "@
            + args[1]
            + ") "@
            + args[2]
            + " {
    let mut s = self.state.write().unwrap();
    let result = s."@
            + args[0]
            + "("@
            + args[3]
            + ");
    s.__rillet_publish_view();
    s.__rillet_ops.flush_conclusions();
    result
}
"@,
{
    reveal_strlit("/// Runs on the caller's thread under the service's write
/// lock, republishing the view before returning.
pub fn $0(&self, $1) $2 {
    let mut s = self.state.write().unwrap();
    let result = s.$0($3);
    s.__rillet_publish_view();
    s.__rillet_ops.flush_conclusions();
    result
}
");
    reveal_strlit("/// Runs on the caller's thread under the service's write
/// lock, republishing the view before returning.
pub fn ");
    reveal_strlit("(&self, ");
    reveal_strlit(") ");
    reveal_strlit(" {
    let mut s = self.state.write().unwrap();
    let result = s.");
    reveal_strlit("(");
    reveal_strlit(");
    s.__rillet_publish_view();
    s.__rillet_ops.flush_conclusions();
    result
}
");
    let a = "/// Runs on the caller's thread under the service's write
/// lock, republishing the view before returning.
pub fn "@;
    let b = "(&self, "@;
    let c = ") "@;
    let d = " {
    let mut s = self.state.write().unwrap();
    let result = s."@;
    let e = "("@;
    let f = ");
    s.__rillet_publish_view();
    s.__rillet_ops.flush_conclusions();
    result
}
"@;
    assert(DIRECT_MUT_METHOD@ =~= a
        + crate::text::hole(0)
        + b
        + crate::text::hole(1)
        + c
        + crate::text::hole(2)
        + d
        + crate::text::hole(0)
        + e
        + crate::text::hole(3)
        + f);
    crate::text::lemma_fills5(a, 0, b, 1, c, 2, d, 0, e, 3, f, args);
}

/// What the text of `HANDLE_STRUCT` says, whatever fills it.
proof fn lemma_text_handle_struct(args: Seq<Seq<char>>)
    requires
        args.len() >= 5,
    ensures
        crate::text::filled(HANDLE_STRUCT@, args) == "/// Handle for interacting with the service.
#[derive(Clone)]
pub struct "@
            + args[0]
            + " {
    state: rillet::runtime::Arc<rillet::runtime::RwLock<"@
            + args[1]
            + ">>,
    cmd_tx: rillet::runtime::mpsc::Sender<"@
            + args[2]
            + ">,
    metrics: rillet::runtime::Arc<rillet::metrics::CommandMetrics<"@
            + args[3]
            + ">>,
    __rillet_view: Option<rillet::runtime::Arc<dyn std::any::Any + Send + Sync>>,
    __rillet_gauges: __"@
            + args[4]
            + "Gauges,
    __rillet_cancel: rillet::runtime::CancellationToken,
    __rillet_tasks: rillet::runtime::Arc<rillet::runtime::TaskSet>,
}
"@,
{
    reveal_strlit("/// Handle for interacting with the service.
#[derive(Clone)]
pub struct $0 {
    state: rillet::runtime::Arc<rillet::runtime::RwLock<$1>>,
    cmd_tx: rillet::runtime::mpsc::Sender<$2>,
    metrics: rillet::runtime::Arc<rillet::metrics::CommandMetrics<$3>>,
    __rillet_view: Option<rillet::runtime::Arc<dyn std::any::Any + Send + Sync>>,
    __rillet_gauges: __$4Gauges,
    __rillet_cancel: rillet::runtime::CancellationToken,
    __rillet_tasks: rillet::runtime::Arc<rillet::runtime::TaskSet>,
}
");
    reveal_strlit("/// Handle for interacting with the service.
#[derive(Clone)]
pub struct ");
    reveal_strlit(" {
    state: rillet::runtime::Arc<rillet::runtime::RwLock<");
    reveal_strlit(">>,
    cmd_tx: rillet::runtime::mpsc::Sender<");
    reveal_strlit(">,
    metrics: rillet::runtime::Arc<rillet::metrics::CommandMetrics<");
    reveal_strlit(">>,
    __rillet_view: Option<rillet::runtime::Arc<dyn std::any::Any + Send + Sync>>,
    __rillet_gauges: __");
    reveal_strlit("Gauges,
    __rillet_cancel: rillet::runtime::CancellationToken,
    __rillet_tasks: rillet::runtime::Arc<rillet::runtime::TaskSet>,
}
");
    let a = "/// Handle for interacting with the service.
#[derive(Clone)]
pub struct "@;
    let b = " {
    state: rillet::runtime::Arc<rillet::runtime::RwLock<"@;
    let c = ">>,
    cmd_tx: rillet::runtime::mpsc::Sender<"@;
    let d = ">,
    metrics: rillet::runtime::Arc<rillet::metrics::CommandMetrics<"@;
    let e = ">>,
    __rillet_view: Option<rillet::runtime::Arc<dyn std::any::Any + Send + Sync>>,
    __rillet_gauges: __"@;
    let f = "Gauges,
    __rillet_cancel: rillet::runtime::CancellationToken,
    __rillet_tasks: rillet::runtime::Arc<rillet::runtime::TaskSet>,
}
"@;
    assert(HANDLE_STRUCT@ =~= a
        + crate::text::hole(0)
        + b
        + crate::text::hole(1)
        + c
        + crate::text::hole(2)
        + d
        + crate::text::hole(3)
        + e
        + crate::text::hole(4)
        + f);
    crate::text::lemma_fills5(a, 0, b, 1, c, 2, d, 3, e, 4, f, args);
}

/// What the text of `CLEAN_IMPL` says, whatever fills it.
proof fn lemma_text_clean_impl(args: Seq<Seq<char>>)
    requires
        args.len() >= 4,
    ensures
        crate::text::filled(CLEAN_IMPL@, args) == "impl "@
            + args[0]
            + " "@
            + args[1]
            + " "@
            + args[2]
            + " {
    "@
            + args[3]
            + "
}
"@,
{
    reveal_strlit("impl $0 $1 $2 {
    $3
}
");
    reveal_strlit("impl ");
    reveal_strlit(" ");
    reveal_strlit(" {
    ");
    reveal_strlit("
}
");
    let a = "impl "@;
    let b = " "@;
    let c = " "@;
    let d = " {
    "@;
    let e = "
}
"@;
    assert(CLEAN_IMPL@ =~= a
        + crate::text::hole(0)
        + b
        + crate::text::hole(1)
        + c
        + crate::text::hole(2)
        + d
        + crate::text::hole(3)
        + e);
    crate::text::lemma_fills4(a, 0, b, 1, c, 2, d, 3, e, args);
}

/// What the text of `LINE` says, whatever fills it.
proof fn lemma_text_line(args: Seq<Seq<char>>)
    requires
        args.len() >= 1,
    ensures
        crate::text::filled(LINE@, args) == args[0] + "
"@,
{
    reveal_strlit("$0
");
    reveal_strlit("
");
    let a = Seq::<char>::empty();
    let b = "
"@;
    assert(LINE@ =~= a + crate::text::hole(0) + b);
    crate::text::lemma_fills1(a, 0, b, args);
    assert(crate::text::filled(LINE@, args) =~= args[0] + "
"@);
}

/// What the text of `METHOD` says, whatever fills it.
proof fn lemma_text_method(args: Seq<Seq<char>>)
    requires
        args.len() >= 5,
    ensures
        crate::text::filled(METHOD@, args) == args[0]
            + args[1]
            + " "@
            + args[2]
            + " "@
            + args[3]
            + " "@
            + args[4]
            + "
"@,
{
    reveal_strlit("$0$1 $2 $3 $4
");
    reveal_strlit(" ");
    reveal_strlit("
");
    let a = Seq::<char>::empty();
    let b = Seq::<char>::empty();
    let c = " "@;
    let d = " "@;
    let e = " "@;
    let f = "
"@;
    assert(METHOD@ =~= a
        + crate::text::hole(0)
        + b
        + crate::text::hole(1)
        + c
        + crate::text::hole(2)
        + d
        + crate::text::hole(3)
        + e
        + crate::text::hole(4)
        + f);
    crate::text::lemma_fills5(a, 0, b, 1, c, 2, d, 3, e, 4, f, args);
    let part = args[0] + args[1] + " "@ + args[2] + " "@ + args[3] + " "@ + args[4] + "
"@;
    assert(crate::text::filled(METHOD@, args) =~= part);
}

/// What the text of `SPACED` says, whatever fills it.
proof fn lemma_text_spaced(args: Seq<Seq<char>>)
    requires
        args.len() >= 1,
    ensures
        crate::text::filled(SPACED@, args) == args[0] + " "@,
{
    reveal_strlit("$0 ");
    reveal_strlit(" ");
    let a = Seq::<char>::empty();
    let b = " "@;
    assert(SPACED@ =~= a + crate::text::hole(0) + b);
    crate::text::lemma_fills1(a, 0, b, args);
    assert(crate::text::filled(SPACED@, args) =~= args[0] + " "@);
}

/// What the text of `ON_EVENT` says, whatever fills it.
proof fn lemma_text_on_event(args: Seq<Seq<char>>)
    requires
        args.len() >= 1,
    ensures
        crate::text::filled(ON_EVENT@, args) == "on_"@ + args[0],
{
    reveal_strlit("on_$0");
    reveal_strlit("on_");
    let a = "on_"@;
    let b = Seq::<char>::empty();
    assert(ON_EVENT@ =~= a + crate::text::hole(0) + b);
    crate::text::lemma_fills1(a, 0, b, args);
    assert(crate::text::filled(ON_EVENT@, args) =~= "on_"@ + args[0]);
}

} // verus!
