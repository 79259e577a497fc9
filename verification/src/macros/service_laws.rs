//! What holds of the code around every service.

use crate::macros::commands::IMPL;
use crate::macros::handlers::{HANDLE_NAME, ON_EVENT};
use crate::macros::service::{
    ADD_EVENT, CANCEL_TOKEN_FIELD, CAPACITY, CONSTRUCTOR, CONSTRUCTOR_PARAM, EMIT, EMITTER_FIELD,
    EVENT_STATS, FIELD, GAUGES, GAUGE_CLONE, GAUGE_FIELD, GETTER, HANDLE_EMIT, HAS_OBSERVERS,
    INIT_ARGUMENT, INIT_DEFAULT, INIT_EMITTER, INIT_GIVEN, INIT_VIEW, NO_EMITTER, NO_VIEW,
    OBSERVED_EVENT, OBSERVED_VIEW, OPS_FIELD, SAMPLER, SAMPLING_STATE_FIELD, SHUTDOWN, STRUCT,
    SUBSCRIBE, ServiceFieldView, ServiceView, TASKS_FIELD, VIEW_HANDLE_NAME, VIEW_IMPLS,
    VIEW_SAMPLER, VIEW_SLOT_FIELD, VIEW_SUBSCRIBE, WIRE_EMITTER,
};
use crate::macros::spawn::EMPTY;
use crate::macros::syntax::InputPartsView;
use vstd::prelude::*;

verus! {

/// The code around a service holds each of its parts.
proof fn lemma_parts(service: ServiceView)
    ensures
        crate::text::holds(
            crate::macros::service::service_code(service),
            crate::macros::service::getters(
                crate::macros::service::handle_name(service.name),
                service.fields,
            ),
        ),
        crate::text::holds(
            crate::macros::service::service_code(service),
            crate::macros::service::gauges(service),
        ),
        crate::text::holds(
            crate::macros::service::service_code(service),
            crate::macros::service::subscription_methods(
                crate::macros::service::handle_name(service.name),
                service.events,
            ),
        ),
        crate::text::holds(
            crate::macros::service::service_code(service),
            crate::macros::service::emit_methods(
                service.name,
                service.events,
                service.event_capacity,
            ),
        ),
        crate::text::holds(
            crate::macros::service::service_code(service),
            crate::macros::service::has_observers(
                service.name,
                service.events,
                service.view_type is Some,
            ),
        ),
        crate::text::holds(
            crate::macros::service::service_code(service),
            crate::macros::service::constructor(service),
        ),
        crate::text::holds(
            crate::macros::service::service_code(service),
            crate::macros::service::shutdown_methods(
                crate::macros::service::handle_name(service.name),
            ),
        ),
        crate::text::holds(
            crate::macros::service::service_code(service),
            crate::macros::service::view_impls(service),
        ),
        crate::text::holds(
            crate::macros::service::service_code(service),
            crate::text::filled(
                CAPACITY@,
                seq![service.name, crate::macros::commands::usize_literal(service.command_capacity as nat)],
            ),
        ),
{
    let t0 = crate::macros::service::getters(crate::macros::service::handle_name(service.name), service.fields);
    let x1 = crate::macros::service::gauges(service);
    let t1 = t0 + x1;
    crate::text::lemma_holds_ends(t0, x1);
    let x2 = crate::macros::service::subscription_methods(crate::macros::service::handle_name(service.name), service.events);
    let t2 = t1 + x2;
    crate::text::lemma_holds_ends(t1, x2);
    let x3 = crate::macros::service::emit_methods(service.name, service.events, service.event_capacity);
    let t3 = t2 + x3;
    crate::text::lemma_holds_ends(t2, x3);
    let x4 = crate::macros::service::has_observers(service.name, service.events, service.view_type is Some);
    let t4 = t3 + x4;
    crate::text::lemma_holds_ends(t3, x4);
    let x5 = crate::macros::service::constructor(service);
    let t5 = t4 + x5;
    crate::text::lemma_holds_ends(t4, x5);
    let x6 = crate::macros::service::shutdown_methods(crate::macros::service::handle_name(service.name));
    let t6 = t5 + x6;
    crate::text::lemma_holds_ends(t5, x6);
    let x7 = crate::macros::service::view_impls(service);
    let t7 = t6 + x7;
    crate::text::lemma_holds_ends(t6, x7);
    let x8 = crate::text::filled(CAPACITY@, seq![service.name, crate::macros::commands::usize_literal(service.command_capacity as nat)]);
    let t8 = t7 + x8;
    crate::text::lemma_holds_ends(t7, x8);
    assert(crate::macros::service::service_code(service) == t8);
    crate::text::lemma_holds_through(t8, t7, t6);
    crate::text::lemma_holds_through(t8, t7, x7);
    crate::text::lemma_holds_through(t8, t6, t5);
    crate::text::lemma_holds_through(t8, t6, x6);
    crate::text::lemma_holds_through(t8, t5, t4);
    crate::text::lemma_holds_through(t8, t5, x5);
    crate::text::lemma_holds_through(t8, t4, t3);
    crate::text::lemma_holds_through(t8, t4, x4);
    crate::text::lemma_holds_through(t8, t3, t2);
    crate::text::lemma_holds_through(t8, t3, x3);
    crate::text::lemma_holds_through(t8, t2, t1);
    crate::text::lemma_holds_through(t8, t2, x2);
    crate::text::lemma_holds_through(t8, t1, t0);
    crate::text::lemma_holds_through(t8, t1, x1);
}

/// The handle's name is the service's with a suffix.
proof fn lemma_handle_name(service: ServiceView)
    ensures
        crate::macros::service::handle_name(service.name) == (crate::macros::case::fragment(service.name) + "Handle"@),
{
    let args = seq![crate::macros::case::fragment(service.name)];
    lemma_text_handle_name(args);
    assert(crate::macros::case::fragment(service.name)
        + "Handle"@ =~= (crate::macros::case::fragment(service.name) + "Handle"@));
}

/// A `usize` literal is the number and its suffix.
proof fn lemma_capacity(n: nat)
    ensures
        crate::macros::commands::usize_literal(n) == (crate::text::digits(n) + "usize"@),
{
    crate::macros::command_laws::law_usize_literal(n);
}

/// The constructor takes a parameter for each field that is neither defaulted
/// nor a gauge, and no other, and initializes every field: from the parameter
/// of its name exactly where there is one, with the given expression where
/// its attributes hold one, and with its type's default otherwise. The hidden
/// fields start out new; there is an emitter exactly where the service emits
/// events, and a view slot exactly where it publishes a view.
pub proof fn law_constructor(service: ServiceView) -> (made: (Seq<Seq<char>>, Seq<Seq<char>>))
    ensures
        crate::text::holds(
            crate::macros::service::service_code(service),
            "impl "@
                + service.name
                + " {
    /// Creates a new instance of this service.
    #[allow(clippy::too_many_arguments)]
    pub fn new("@
                + crate::text::concat(made.0)
                + ") -> Self {
        Self {
            "@
                + crate::text::concat(made.1)
                + "
            "@
                + (if service.events.len() > 0 { "__rillet_emitter: rillet::event::Emitter::new(),
"@ } else { ""@ })
                + "
            "@
                + (if service.view_type is Some { "__rillet_view_slot: None,
"@ } else { ""@ })
                + "
            __rillet_cancel_token: rillet::runtime::CancellationToken::new(),
            __rillet_tasks: rillet::runtime::Arc::new(rillet::runtime::TaskSet::new()),
            __rillet_sampling_state: rillet::metrics::SamplingState::new(),
            __rillet_ops: rillet::op::OpsCell::new(),
        }
    }
"@,
        ),
        made.0.len() == service.fields.len(),
        made.1.len() == service.fields.len(),
        forall|i: int| 0 <= i < service.fields.len() ==> (#[trigger] made.0[i] == service.fields[i].name + ": "@ + service.fields[i].ty + ", "@ <==> made.1[i] == service.fields[i].name + ",
"@),
        forall|i: int| 0 <= i < service.fields.len() ==> #[trigger] made.0[i] == (if service.fields[i].default is Absent && !service.fields[i].gauge { service.fields[i].name + ": "@ + service.fields[i].ty + ", "@ } else { ""@ }),
        forall|i: int| 0 <= i < service.fields.len() && service.fields[i].default is Absent && !service.fields[i].gauge ==> #[trigger] made.1[i] == service.fields[i].name
            + ",
"@,
        forall|i: int| 0 <= i < service.fields.len() && (service.fields[i].default is Trait || service.fields[i].default is Absent && service.fields[i].gauge) ==> #[trigger] made.1[i] == service.fields[i].name
            + ": Default::default(),
"@,
        forall|i: int| 0 <= i < service.fields.len() && service.fields[i].default is Given ==> #[trigger] made.1[i] == service.fields[i].name
            + ": "@
            + service.fields[i].default->Given_expr
            + ",
"@,
{
    let params = service.fields.map_values(|f: ServiceFieldView| crate::macros::service::constructor_param(f));
    let inits = service.fields.map_values(|f: ServiceFieldView| crate::macros::service::field_init(f));
    let args = seq![
        service.name,
        crate::text::concat(params),
        crate::text::concat(inits),
        if service.events.len() > 0 { INIT_EMITTER@ } else { EMPTY@ },
        if service.view_type is Some { INIT_VIEW@ } else { EMPTY@ },
    ];
    lemma_text_constructor(args);
    lemma_parts(service);
    crate::text::lemma_holds_through(
        crate::macros::service::service_code(service),
        crate::macros::service::constructor(service),
        "impl "@
            + service.name
            + " {
    /// Creates a new instance of this service.
    #[allow(clippy::too_many_arguments)]
    pub fn new("@
            + crate::text::concat(params)
            + ") -> Self {
        Self {
            "@
            + crate::text::concat(inits)
            + "
            "@
            + (if service.events.len() > 0 { INIT_EMITTER@ } else { ""@ })
            + "
            "@
            + (if service.view_type is Some { "__rillet_view_slot: None,
"@ } else { ""@ })
            + "
            __rillet_cancel_token: rillet::runtime::CancellationToken::new(),
            __rillet_tasks: rillet::runtime::Arc::new(rillet::runtime::TaskSet::new()),
            __rillet_sampling_state: rillet::metrics::SamplingState::new(),
            __rillet_ops: rillet::op::OpsCell::new(),
        }
    }
"@,
    );
    assert forall|i: int| 0 <= i < service.fields.len() implies #[trigger] params[i] == (if service.fields[i].default is Absent && !service.fields[i].gauge { service.fields[i].name + ": "@ + service.fields[i].ty + ", "@ } else { ""@ }) by {
        let pargs = seq![service.fields[i].name, service.fields[i].ty];
        lemma_text_constructor_param(pargs);
    }
    assert forall|i: int| 0 <= i < service.fields.len() && service.fields[i].default is Absent && !service.fields[i].gauge implies #[trigger] inits[i] == service.fields[i].name
        + ",
"@ by {
        let iargs = seq![service.fields[i].name];
        lemma_text_init_argument(iargs);
    }
    assert forall|i: int| 0 <= i < service.fields.len() && (service.fields[i].default is Trait || service.fields[i].default is Absent && service.fields[i].gauge) implies #[trigger] inits[i] == service.fields[i].name
        + ": Default::default(),
"@ by {
        let iargs = seq![service.fields[i].name];
        lemma_text_init_default(iargs);
    }
    assert forall|i: int| 0 <= i < service.fields.len() && service.fields[i].default is Given implies #[trigger] inits[i] == service.fields[i].name
        + ": "@
        + service.fields[i].default->Given_expr
        + ",
"@ by {
        let iargs = seq![service.fields[i].name, service.fields[i].default->Given_expr];
        lemma_text_init_given(iargs);
    }
    assert forall|i: int| 0 <= i < service.fields.len() implies (#[trigger] params[i] == service.fields[i].name + ": "@ + service.fields[i].ty + ", "@ <==> inits[i] == service.fields[i].name + ",
"@) by {
        reveal_strlit("");
        reveal_strlit(", ");
        reveal_strlit(": ");
        reveal_strlit(",
");
        reveal_strlit(": Default::default(),
");
        assert((service.fields[i].name + ": "@ + service.fields[i].ty + ", "@).len() > 0);
        if !(service.fields[i].default is Absent && !service.fields[i].gauge) {
            assert(params[i].len() == 0);
            assert(inits[i].len() > (service.fields[i].name + ",
"@).len());
        }
    }
    (params, inits)
}

/// The service's own `cancel` cancels its token and returns the completion of
/// its tasks.
pub proof fn law_service_cancel(service: ServiceView)
    ensures
        crate::text::holds(
            crate::macros::service::service_code(service),
            "    pub fn cancel(&self) -> rillet::runtime::TaskCompletion {
        self.__rillet_cancel_token.cancel();
        rillet::runtime::TaskCompletion::new(self.__rillet_tasks.clone())
    }
}
"@,
        ),
{
    let params = service.fields.map_values(|f: ServiceFieldView| crate::macros::service::constructor_param(f));
    let inits = service.fields.map_values(|f: ServiceFieldView| crate::macros::service::field_init(f));
    let args = seq![
        service.name,
        crate::text::concat(params),
        crate::text::concat(inits),
        if service.events.len() > 0 { INIT_EMITTER@ } else { EMPTY@ },
        if service.view_type is Some { INIT_VIEW@ } else { EMPTY@ },
    ];
    lemma_text_constructor(args);
    lemma_parts(service);
    let part = "    pub fn cancel(&self) -> rillet::runtime::TaskCompletion {
        self.__rillet_cancel_token.cancel();
        rillet::runtime::TaskCompletion::new(self.__rillet_tasks.clone())
    }
}
"@;
    crate::text::lemma_holds_through(
        crate::macros::service::service_code(service),
        crate::macros::service::constructor(service),
        part,
    );
}

/// For every field with a getter the handle has a method of the field's name
/// that clones the field under the read lock.
pub proof fn law_getter_of_each_field(service: ServiceView, i: int)
    requires
        0 <= i < service.fields.len(),
        service.fields[i].getter,
    ensures
        crate::text::holds(
            crate::macros::service::service_code(service),
            "pub fn "@
                + service.fields[i].name
                + "(&self) -> "@
                + service.fields[i].ty
                + " {
    self.state.read().unwrap()."@
                + service.fields[i].name
                + ".clone()
}
"@,
        ),
{
    assert(crate::macros::service::has_getters(service.fields));
    let parts = service.fields.map_values(|f: ServiceFieldView| crate::macros::service::getter(f));
    crate::text::lemma_concat_holds(parts, i);
    let args = seq![crate::macros::service::handle_name(service.name), crate::text::concat(parts)];
    lemma_text_impl(args);
    let gargs = seq![service.fields[i].name, service.fields[i].ty];
    lemma_text_getter(gargs);
    crate::text::lemma_holds_middle(" {
    "@, crate::text::concat(parts), "
}
"@);
    crate::text::lemma_holds_through(
        crate::macros::service::getters(crate::macros::service::handle_name(service.name), service.fields),
        " {
    "@
            + crate::text::concat(parts)
            + "
}
"@,
        crate::text::concat(parts),
    );
    let part = "pub fn "@ + service.fields[i].name + "(&self) -> "@ + service.fields[i].ty + " {
    self.state.read().unwrap()."@ + service.fields[i].name + ".clone()
}
"@;
    crate::text::lemma_holds_through(
        crate::macros::service::getters(crate::macros::service::handle_name(service.name), service.fields),
        crate::text::concat(parts),
        part,
    );
    lemma_parts(service);
    crate::text::lemma_holds_through(
        crate::macros::service::service_code(service),
        crate::macros::service::getters(crate::macros::service::handle_name(service.name), service.fields),
        part,
    );
}

/// The handle's getters are those of the fields that have one, in their order,
/// and no others; without any there is no code for them.
pub proof fn law_only_getters_are_written(service: ServiceView) -> (getters: Seq<Seq<char>>)
    ensures
        getters.len() == service.fields.len(),
        forall|i: int| 0 <= i < service.fields.len() && !service.fields[i].getter ==> #[trigger] getters[i] == ""@,
        crate::macros::service::getters(crate::macros::service::handle_name(service.name), service.fields) == (if exists|i: int| 0 <= i < service.fields.len() && (#[trigger] service.fields[i]).getter { "impl "@ + (crate::macros::case::fragment(service.name) + "Handle"@) + " {
    "@ + crate::text::concat(getters) + "
}
"@ } else { ""@ }),
{
    let getters = service.fields.map_values(|f: ServiceFieldView| crate::macros::service::getter(f));
    lemma_handle_name(service);
    let args = seq![
        crate::macros::service::handle_name(service.name),
        crate::text::concat(getters),
    ];
    lemma_text_impl(args);
    getters
}

/// The handle holds a clone of every gauge of the service and samples each
/// through a method of the field's name; a field that is no gauge is in none
/// of these.
pub proof fn law_gauges_of_the_handle(service: ServiceView) -> (made: (Seq<Seq<char>>, Seq<Seq<char>>, Seq<Seq<char>>))
    ensures
        crate::text::holds(
            crate::macros::service::service_code(service),
            "#[doc(hidden)]
#[derive(Clone)]
pub struct __"@
                + crate::macros::case::fragment(service.name)
                + "Gauges {
    "@
                + crate::text::concat(made.0)
                + "
}

"@,
        ),
        crate::text::holds(
            crate::macros::service::service_code(service),
            "impl "@
                + service.name
                + " {
    #[doc(hidden)]
    pub fn __rillet_gauges(&self) -> __"@
                + crate::macros::case::fragment(service.name)
                + "Gauges {
        __"@
                + crate::macros::case::fragment(service.name)
                + "Gauges {
            "@
                + crate::text::concat(made.1)
                + "
        }
    }
}

"@,
        ),
        crate::text::holds(
            crate::macros::service::service_code(service),
            "impl "@
                + (crate::macros::case::fragment(service.name) + "Handle"@)
                + " {
    "@
                + crate::text::concat(made.2)
                + "
}
"@,
        ),
        made.0.len() == service.fields.len(),
        forall|i: int| 0 <= i < service.fields.len() ==> #[trigger] made.0[i] == (if service.fields[i].gauge { service.fields[i].name + ": "@ + service.fields[i].ty + ",
"@ } else { ""@ }),
        made.1.len() == service.fields.len(),
        forall|i: int| 0 <= i < service.fields.len() ==> #[trigger] made.1[i] == (if service.fields[i].gauge { service.fields[i].name + ": self."@ + service.fields[i].name + ".clone(),
"@ } else { ""@ }),
        made.2.len() == service.fields.len(),
        forall|i: int| 0 <= i < service.fields.len() ==> #[trigger] made.2[i] == (if service.fields[i].gauge { "/// Samples the gauge without touching the service's state lock.
pub fn "@ + service.fields[i].name + "(&self) -> <"@ + service.fields[i].ty + " as rillet::gauge::GaugeCell>::Value {
    rillet::gauge::GaugeCell::load(&self.__rillet_gauges."@ + service.fields[i].name + ")
}
"@ } else { ""@ }),
{
    lemma_handle_name(service);
    let fields = service.fields.map_values(|field: ServiceFieldView| crate::macros::service::per_gauge(GAUGE_FIELD@, field));
    let clones = service.fields.map_values(|field: ServiceFieldView| crate::macros::service::per_gauge(GAUGE_CLONE@, field));
    let samplers = service.fields.map_values(|field: ServiceFieldView| crate::macros::service::per_gauge(SAMPLER@, field));
    let args = seq![
        crate::macros::case::fragment(service.name),
        crate::macros::service::for_gauges(GAUGE_FIELD@, service.fields),
        service.name,
        crate::macros::service::for_gauges(GAUGE_CLONE@, service.fields),
        crate::macros::service::handle_name(service.name),
        crate::macros::service::for_gauges(SAMPLER@, service.fields),
    ];
    lemma_parts(service);
    lemma_text_gauges(args);
    crate::text::lemma_holds_through(
        crate::macros::service::service_code(service),
        crate::macros::service::gauges(service),
        "#[doc(hidden)]
#[derive(Clone)]
pub struct __"@
            + crate::macros::case::fragment(service.name)
            + "Gauges {
    "@
            + crate::text::concat(fields)
            + "
}

"@,
    );
    crate::text::lemma_holds_through(
        crate::macros::service::service_code(service),
        crate::macros::service::gauges(service),
        "impl "@
            + service.name
            + " {
    #[doc(hidden)]
    pub fn __rillet_gauges(&self) -> __"@
            + crate::macros::case::fragment(service.name)
            + "Gauges {
        __"@
            + crate::macros::case::fragment(service.name)
            + "Gauges {
            "@
            + crate::text::concat(clones)
            + "
        }
    }
}

"@,
    );
    crate::text::lemma_holds_through(
        crate::macros::service::service_code(service),
        crate::macros::service::gauges(service),
        "impl "@
            + (crate::macros::case::fragment(service.name) + "Handle"@)
            + " {
    "@
            + crate::text::concat(samplers)
            + "
}
"@,
    );
    assert forall|i: int| 0 <= i < service.fields.len() implies #[trigger] fields[i] == (if service.fields[i].gauge { service.fields[i].name + ": "@ + service.fields[i].ty + ",
"@ } else { ""@ }) by {
        let vargs = seq![service.fields[i].name, service.fields[i].ty];
        lemma_text_gauge_field(vargs);
    }
    assert forall|i: int| 0 <= i < service.fields.len() implies #[trigger] clones[i] == (if service.fields[i].gauge { service.fields[i].name + ": self."@ + service.fields[i].name + ".clone(),
"@ } else { ""@ }) by {
        let vargs = seq![service.fields[i].name, service.fields[i].ty];
        lemma_text_gauge_clone(vargs);
    }
    assert forall|i: int| 0 <= i < service.fields.len() implies #[trigger] samplers[i] == (if service.fields[i].gauge { "/// Samples the gauge without touching the service's state lock.
pub fn "@ + service.fields[i].name + "(&self) -> <"@ + service.fields[i].ty + " as rillet::gauge::GaugeCell>::Value {
    rillet::gauge::GaugeCell::load(&self.__rillet_gauges."@ + service.fields[i].name + ")
}
"@ } else { ""@ }) by {
        let vargs = seq![service.fields[i].name, service.fields[i].ty];
        lemma_text_sampler(vargs);
    }
    (fields, clones, samplers)
}

/// The method that subscribes to an event, spelled out.
proof fn lemma_subscription_of(event: Seq<char>)
    ensures
        crate::macros::handlers::subscription_of(event) == "on_"@
            + crate::macros::service::event_name(event),
{
    let args = seq![crate::macros::service::event_name(event)];
    lemma_text_on_event(args);
}

/// For every event the handle has a method that subscribes to it, one that
/// emits it, and its two counts, all on the event's own type.
pub proof fn law_handle_serves_each_event(service: ServiceView, i: int)
    requires
        0 <= i < service.events.len(),
    ensures
        crate::text::holds(
            crate::macros::service::service_code(service),
            "/// Returns a receiver for all future events of this type.
pub fn "@
                + ("on_"@ + crate::macros::service::event_name(service.events[i]))
                + "(&self) -> rillet::event::EventReceiver<"@
                + service.events[i]
                + "> {
    rillet::event::EventReceiver::new(
        self.state.read().unwrap().__rillet_emitter.subscribe::<"@
                + service.events[i]
                + ">()
    )
}
"@,
        ),
        crate::text::holds(
            crate::macros::service::service_code(service),
            "/// Emits the event to all subscribers.
pub fn emit_"@
                + crate::macros::service::event_name(service.events[i])
                + "(&self, event: "@
                + service.events[i]
                + ") {
    self.state.read().unwrap().__rillet_emitter.emit(event);
}
"@,
        ),
        crate::text::holds(
            crate::macros::service::service_code(service),
            "/// Returns the total number of events published for this event type.
pub fn "@
                + crate::macros::service::event_name(service.events[i])
                + "_published(&self) -> u64 {
    self.state.read().unwrap().__rillet_emitter.published::<"@
                + service.events[i]
                + ">()
}

/// Returns the current number of subscribers for this event type.
pub fn "@
                + crate::macros::service::event_name(service.events[i])
                + "_subscriber_count(&self) -> usize {
    self.state.read().unwrap().__rillet_emitter.subscriber_count::<"@
                + service.events[i]
                + ">()
}
"@,
        ),
{
    lemma_subscription_of(service.events[i]);
    let subscribes = service.events.map_values(|event: Seq<char>| crate::macros::service::per_subscription(SUBSCRIBE@, event));
    crate::text::lemma_concat_holds(subscribes, i);
    let emits = service.events.map_values(|event: Seq<char>| crate::macros::service::per_event(HANDLE_EMIT@, event));
    crate::text::lemma_concat_holds(emits, i);
    let counts = service.events.map_values(|event: Seq<char>| crate::macros::service::per_event(EVENT_STATS@, event));
    crate::text::lemma_concat_holds(counts, i);
    let x = crate::text::concat(subscribes);
    let y = crate::text::concat(emits);
    let z = crate::text::concat(counts);
    let all = x + y + z;
    crate::text::lemma_holds_ends(x, y);
    crate::text::lemma_holds_ends(x + y, z);
    crate::text::lemma_holds_through(all, x + y, x);
    crate::text::lemma_holds_through(all, x + y, y);
    let args = seq![crate::macros::service::handle_name(service.name), all];
    lemma_text_impl(args);
    crate::text::lemma_holds_middle(" {
    "@, all, "
}
"@);
    crate::text::lemma_holds_through(
        crate::macros::service::subscription_methods(crate::macros::service::handle_name(service.name), service.events),
        " {
    "@
            + all
            + "
}
"@,
        all,
    );
    lemma_parts(service);
    crate::text::lemma_holds_through(
        crate::macros::service::subscription_methods(crate::macros::service::handle_name(service.name), service.events),
        all,
        x,
    );
    let eargs = seq![
        crate::macros::handlers::subscription_of(service.events[i]),
        service.events[i],
    ];
    lemma_text_subscribe(eargs);
    crate::text::lemma_holds_through(
        crate::macros::service::subscription_methods(crate::macros::service::handle_name(service.name), service.events),
        x,
        subscribes[i],
    );
    crate::text::lemma_holds_through(
        crate::macros::service::service_code(service),
        crate::macros::service::subscription_methods(crate::macros::service::handle_name(service.name), service.events),
        subscribes[i],
    );
    crate::text::lemma_holds_through(
        crate::macros::service::subscription_methods(crate::macros::service::handle_name(service.name), service.events),
        all,
        y,
    );
    let eargs = seq![crate::macros::service::event_name(service.events[i]), service.events[i]];
    lemma_text_handle_emit(eargs);
    crate::text::lemma_holds_through(
        crate::macros::service::subscription_methods(crate::macros::service::handle_name(service.name), service.events),
        y,
        emits[i],
    );
    crate::text::lemma_holds_through(
        crate::macros::service::service_code(service),
        crate::macros::service::subscription_methods(crate::macros::service::handle_name(service.name), service.events),
        emits[i],
    );
    crate::text::lemma_holds_through(
        crate::macros::service::subscription_methods(crate::macros::service::handle_name(service.name), service.events),
        all,
        z,
    );
    let eargs = seq![crate::macros::service::event_name(service.events[i]), service.events[i]];
    lemma_text_event_stats(eargs);
    crate::text::lemma_holds_through(
        crate::macros::service::subscription_methods(crate::macros::service::handle_name(service.name), service.events),
        z,
        counts[i],
    );
    crate::text::lemma_holds_through(
        crate::macros::service::service_code(service),
        crate::macros::service::subscription_methods(crate::macros::service::handle_name(service.name), service.events),
        counts[i],
    );
}

/// A service without events has a handle without subscriptions, and nothing to
/// wire.
pub proof fn law_no_events_no_subscriptions(service: ServiceView)
    requires
        service.events.len() == 0,
    ensures
        crate::macros::service::subscription_methods(crate::macros::service::handle_name(service.name), service.events) == ""@,
        crate::macros::service::emit_methods(service.name, service.events, service.event_capacity) == "impl "@
            + service.name
            + " {
    #[doc(hidden)]
    pub fn __rillet_wire_emitter(&mut self) {}
}
"@,
{
    let args = seq![service.name];
    lemma_text_no_emitter(args);
}

/// A service with events has a method that emits each, and makes one channel
/// for each, in their order, with the service's event capacity.
pub proof fn law_emitter_is_wired(service: ServiceView) -> (made: (Seq<Seq<char>>, Seq<Seq<char>>))
    requires
        service.events.len() > 0,
    ensures
        made.0.len() == service.events.len(),
        made.1.len() == service.events.len(),
        crate::macros::service::emit_methods(service.name, service.events, service.event_capacity) == "impl "@
            + service.name
            + " {
    "@
            + crate::text::concat(made.0)
            + "

    /// Creates the event channels. Called by the spawn methods.
    #[doc(hidden)]
    pub fn __rillet_wire_emitter(&mut self) {
        let mut builder = rillet::event::EmitterBuilder::new();
        "@
            + crate::text::concat(made.1)
            + "
        self.__rillet_emitter = builder.build();
    }
}
"@,
        forall|i: int| 0 <= i < service.events.len() ==> #[trigger] made.0[i] == "/// Emits the event to all subscribers.
fn emit_"@
            + crate::macros::service::event_name(service.events[i])
            + "(&self, event: "@
            + service.events[i]
            + ") {
    self.__rillet_emitter.emit(event);
}
"@,
        forall|i: int| 0 <= i < service.events.len() ==> #[trigger] made.1[i] == "builder.add_event::<"@
            + service.events[i]
            + ">("@
            + (crate::text::digits(service.event_capacity as nat) + "usize"@)
            + ");
"@,
        crate::text::holds(
            crate::macros::service::service_code(service),
            crate::macros::service::emit_methods(
                service.name,
                service.events,
                service.event_capacity,
            ),
        ),
{
    let emits = service.events.map_values(|event: Seq<char>| crate::macros::service::per_event(EMIT@, event));
    let adds = service.events.map_values(|event: Seq<char>| crate::macros::service::add_event(service.event_capacity, event));
    lemma_capacity(service.event_capacity as nat);
    let args = seq![service.name, crate::text::concat(emits), crate::text::concat(adds)];
    lemma_text_wire_emitter(args);
    assert forall|i: int| 0 <= i < service.events.len() implies #[trigger] emits[i] == "/// Emits the event to all subscribers.
fn emit_"@
        + crate::macros::service::event_name(service.events[i])
        + "(&self, event: "@
        + service.events[i]
        + ") {
    self.__rillet_emitter.emit(event);
}
"@ by {
        let vargs = seq![crate::macros::service::event_name(service.events[i]), service.events[i]];
        lemma_text_emit(vargs);
    }
    assert forall|i: int| 0 <= i < service.events.len() implies #[trigger] adds[i] == "builder.add_event::<"@
        + service.events[i]
        + ">("@
        + (crate::text::digits(service.event_capacity as nat) + "usize"@)
        + ");
"@ by {
        let vargs = seq![
            service.events[i],
            crate::macros::commands::usize_literal(service.event_capacity as nat),
        ];
        lemma_text_add_event(vargs);
    }
    lemma_parts(service);
    (emits, adds)
}

/// A service is observed exactly where one of its events has a subscriber or
/// its view has a watcher: the test joins one clause for each event, and one
/// for the view where there is one.
pub proof fn law_observers_are_counted(service: ServiceView) -> (clauses: Seq<Seq<char>>)
    ensures
        clauses.len() == service.events.len(),
        forall|i: int| 0 <= i < service.events.len() ==> #[trigger] clauses[i] == "self.__rillet_emitter.subscriber_count::<"@
            + service.events[i]
            + ">() > 0 || "@,
        crate::text::holds(
            crate::macros::service::service_code(service),
            "impl "@
                + service.name
                + " {
    /// Whether anyone subscribes to an event or watches the view.
    #[doc(hidden)]
    pub fn __rillet_has_observers(&self) -> bool {
        "@
                + crate::text::concat(clauses)
                + " "@
                + (if service.view_type is Some { "self.__rillet_view_slot.as_ref().is_some_and(|slot| slot.watcher_count() > 0) || "@ } else { ""@ })
                + " false
    }
}
"@,
        ),
{
    let clauses = service.events.map_values(|event: Seq<char>| crate::macros::service::observed_event(event));
    let args = seq![
        service.name,
        crate::text::concat(clauses),
        if service.view_type is Some { OBSERVED_VIEW@ } else { EMPTY@ },
    ];
    lemma_text_has_observers(args);
    assert forall|i: int| 0 <= i < service.events.len() implies #[trigger] clauses[i] == "self.__rillet_emitter.subscriber_count::<"@
        + service.events[i]
        + ">() > 0 || "@ by {
        let vargs = seq![service.events[i]];
        lemma_text_observed_event(vargs);
    }
    lemma_parts(service);
    clauses
}

/// The handle hands out its token, cancels it, and waits for the tasks; only
/// `cancel` cancels.
pub proof fn law_shutdown(service: ServiceView)
    ensures
        crate::text::holds(
            crate::macros::service::service_code(service),
            "impl "@
                + (crate::macros::case::fragment(service.name) + "Handle"@)
                + " {
    /// Returns the service's cancellation token.
    pub fn cancel_token(&self) -> rillet::runtime::CancellationToken {
        self.__rillet_cancel.clone()
    }

    /// Signals cancellation to the service loop and its tasks.
    ///
    /// The returned completion waits for them to finish.
    pub fn cancel(&self) -> rillet::runtime::TaskCompletion {
        self.__rillet_cancel.cancel();
        self.task_completion()
    }

    /// Returns a completion for the service's tasks without
    /// cancelling them.
    pub fn task_completion(&self) -> rillet::runtime::TaskCompletion {
        rillet::runtime::TaskCompletion::new(self.__rillet_tasks.clone())
    }
}
"@,
        ),
{
    lemma_handle_name(service);
    let args = seq![crate::macros::service::handle_name(service.name)];
    lemma_text_shutdown(args);
    lemma_parts(service);
}

/// The command channel's capacity is the one that the service is declared with.
pub proof fn law_command_capacity(service: ServiceView)
    ensures
        crate::text::holds(
            crate::macros::service::service_code(service),
            "impl "@
                + service.name
                + " {
    #[doc(hidden)]
    pub const __RILLET_COMMAND_CAPACITY: usize = "@
                + (crate::text::digits(service.command_capacity as nat) + "usize"@)
                + ";
}
"@,
        ),
{
    lemma_capacity(service.command_capacity as nat);
    let args = seq![
        service.name,
        crate::macros::commands::usize_literal(service.command_capacity as nat),
    ];
    lemma_text_capacity(args);
    lemma_parts(service);
}

/// A service without a view seeds and publishes nothing.
pub proof fn law_no_view_no_publication(service: ServiceView)
    requires
        service.view_type is None,
    ensures
        crate::text::holds(
            crate::macros::service::service_code(service),
            "impl "@
                + service.name
                + " {
    #[doc(hidden)]
    pub fn __rillet_seed_view(&mut self) {}

    #[doc(hidden)]
    pub fn __rillet_view_slot_any(
        &self,
    ) -> Option<rillet::runtime::Arc<dyn std::any::Any + Send + Sync>> {
        None
    }

    #[doc(hidden)]
    pub fn __rillet_publish_view(&self) {}
}
"@,
        ),
{
    let args = seq![service.name];
    lemma_text_no_view(args);
    lemma_parts(service);
}

/// The view handle's name is the service's with a suffix.
proof fn lemma_view_handle_name(service: ServiceView)
    ensures
        crate::text::filled(VIEW_HANDLE_NAME@, seq![crate::macros::case::fragment(service.name)]) == (crate::macros::case::fragment(service.name) + "ViewHandle"@),
{
    let args = seq![crate::macros::case::fragment(service.name)];
    lemma_text_view_handle_name(args);
    assert(crate::macros::case::fragment(service.name)
        + "ViewHandle"@ =~= (crate::macros::case::fragment(service.name) + "ViewHandle"@));
}

/// A service with a view seeds its slot from its state at spawn, hands out the
/// slot, and publishes the view that its state gives.
pub proof fn law_view_is_seeded_and_published(service: ServiceView)
    requires
        service.view_type is Some,
    ensures
        crate::text::holds(
            crate::macros::service::service_code(service),
            "impl "@
                + service.name
                + " {
    /// Seeds the view slot from the initial state.
    #[doc(hidden)]
    pub fn __rillet_seed_view(&mut self) {
        self.__rillet_view_slot = Some(rillet::view::ViewSlot::new(self.view()));
    }

    #[doc(hidden)]
    pub fn __rillet_view_slot_any(
        &self,
    ) -> Option<rillet::runtime::Arc<dyn std::any::Any + Send + Sync>> {
        self.__rillet_view_slot.as_ref().map(|slot| {
            rillet::runtime::Arc::new(slot.clone())
                as rillet::runtime::Arc<dyn std::any::Any + Send + Sync>
        })
    }

    /// Recomputes the view and publishes it if it changed.
    ///
    /// Callers hold the state write lock.
    #[doc(hidden)]
    pub fn __rillet_publish_view(&self) {
        if let Some(slot) = &self.__rillet_view_slot {
            slot.publish(self.view());
        }
    }
}

"@,
        ),
{
    lemma_handle_name(service);
    lemma_view_handle_name(service);
    let args = seq![
        service.name,
        crate::macros::service::handle_name(service.name),
        service.view_type->Some_0,
        crate::text::filled(VIEW_HANDLE_NAME@, seq![crate::macros::case::fragment(service.name)]),
        crate::macros::service::for_subscriptions(VIEW_SUBSCRIBE@, service.events),
        crate::macros::service::for_gauges(VIEW_SAMPLER@, service.fields),
    ];
    lemma_parts(service);
    lemma_text_view_impls(args);
    let part = "impl "@ + service.name + " {
    /// Seeds the view slot from the initial state.
    #[doc(hidden)]
    pub fn __rillet_seed_view(&mut self) {
        self.__rillet_view_slot = Some(rillet::view::ViewSlot::new(self.view()));
    }

    #[doc(hidden)]
    pub fn __rillet_view_slot_any(
        &self,
    ) -> Option<rillet::runtime::Arc<dyn std::any::Any + Send + Sync>> {
        self.__rillet_view_slot.as_ref().map(|slot| {
            rillet::runtime::Arc::new(slot.clone())
                as rillet::runtime::Arc<dyn std::any::Any + Send + Sync>
        })
    }

    /// Recomputes the view and publishes it if it changed.
    ///
    /// Callers hold the state write lock.
    #[doc(hidden)]
    pub fn __rillet_publish_view(&self) {
        if let Some(slot) = &self.__rillet_view_slot {
            slot.publish(self.view());
        }
    }
}

"@;
    crate::text::lemma_holds_through(
        crate::macros::service::service_code(service),
        crate::macros::service::view_impls(service),
        part,
    );
}

/// The handle of a service with a view loads the latest view and watches and
/// awaits the views of the slot that was seeded.
pub proof fn law_handle_reads_the_view(service: ServiceView)
    requires
        service.view_type is Some,
    ensures
        crate::text::holds(
            crate::macros::service::service_code(service),
            "impl "@
                + (crate::macros::case::fragment(service.name) + "Handle"@)
                + " {
    #[doc(hidden)]
    fn __rillet_slot(&self) -> &rillet::view::ViewSlot<"@
                + service.view_type->Some_0
                + "> {
        self.__rillet_view
            .as_ref()
            .and_then(|slot| slot.downcast_ref::<rillet::view::ViewSlot<"@
                + service.view_type->Some_0
                + ">>())
            .expect(\"view slot not seeded at spawn\")
    }

    /// Returns the latest published view without taking any lock.
    pub fn view(&self) -> rillet::runtime::Arc<"@
                + service.view_type->Some_0
                + "> {
        self.__rillet_slot().load()
    }

"@,
        ),
        crate::text::holds(
            crate::macros::service::service_code(service),
            "    /// Returns a watcher that has already seen the current view.
    pub fn watch_view(&self) -> rillet::view::ViewWatcher<"@
                + service.view_type->Some_0
                + "> {
        self.__rillet_slot().watch()
    }

    /// Blocks the thread until a published view meets the condition, or
    /// returns `None` once the service is cancelled.
    pub fn wait_view(
        &self,
        condition: impl FnMut(&"@
                + service.view_type->Some_0
                + ") -> bool,
    ) -> Option<rillet::runtime::Arc<"@
                + service.view_type->Some_0
                + ">> {
        rillet::runtime::wait_view(self.watch_view(), &self.__rillet_cancel, condition)
    }
}

/// A read-only handle to the service: its view and its events.
///
/// It exposes no commands, getters, or direct methods, and takes no
/// locks.
"@,
        ),
{
    lemma_handle_name(service);
    lemma_view_handle_name(service);
    let args = seq![
        service.name,
        crate::macros::service::handle_name(service.name),
        service.view_type->Some_0,
        crate::text::filled(VIEW_HANDLE_NAME@, seq![crate::macros::case::fragment(service.name)]),
        crate::macros::service::for_subscriptions(VIEW_SUBSCRIBE@, service.events),
        crate::macros::service::for_gauges(VIEW_SAMPLER@, service.fields),
    ];
    lemma_parts(service);
    lemma_text_view_impls(args);
    let part = "impl "@
        + (crate::macros::case::fragment(service.name) + "Handle"@)
        + " {
    #[doc(hidden)]
    fn __rillet_slot(&self) -> &rillet::view::ViewSlot<"@
        + service.view_type->Some_0
        + "> {
        self.__rillet_view
            .as_ref()
            .and_then(|slot| slot.downcast_ref::<rillet::view::ViewSlot<"@
        + service.view_type->Some_0
        + ">>())
            .expect(\"view slot not seeded at spawn\")
    }

    /// Returns the latest published view without taking any lock.
    pub fn view(&self) -> rillet::runtime::Arc<"@
        + service.view_type->Some_0
        + "> {
        self.__rillet_slot().load()
    }

"@;
    crate::text::lemma_holds_through(
        crate::macros::service::service_code(service),
        crate::macros::service::view_impls(service),
        part,
    );
    let part1 = "    /// Returns a watcher that has already seen the current view.
    pub fn watch_view(&self) -> rillet::view::ViewWatcher<"@ + service.view_type->Some_0 + "> {
        self.__rillet_slot().watch()
    }

    /// Blocks the thread until a published view meets the condition, or
    /// returns `None` once the service is cancelled.
    pub fn wait_view(
        &self,
        condition: impl FnMut(&"@ + service.view_type->Some_0 + ") -> bool,
    ) -> Option<rillet::runtime::Arc<"@ + service.view_type->Some_0 + ">> {
        rillet::runtime::wait_view(self.watch_view(), &self.__rillet_cancel, condition)
    }
}

/// A read-only handle to the service: its view and its events.
///
/// It exposes no commands, getters, or direct methods, and takes no
/// locks.
"@;
    crate::text::lemma_holds_through(
        crate::macros::service::service_code(service),
        crate::macros::service::view_impls(service),
        part1,
    );
}

/// The view handle wraps the handle it is made from, and loads and watches the
/// handle's view.
pub proof fn law_view_handle_reads_the_view(service: ServiceView)
    requires
        service.view_type is Some,
    ensures
        crate::text::holds(
            crate::macros::service::service_code(service),
            "#[derive(Clone)]
pub struct "@
                + (crate::macros::case::fragment(service.name) + "ViewHandle"@)
                + " {
    inner: "@
                + (crate::macros::case::fragment(service.name) + "Handle"@)
                + ",
}

impl From<"@
                + (crate::macros::case::fragment(service.name) + "Handle"@)
                + "> for "@
                + (crate::macros::case::fragment(service.name) + "ViewHandle"@)
                + " {
    fn from(handle: "@
                + (crate::macros::case::fragment(service.name) + "Handle"@)
                + ") -> Self {
        Self { inner: handle }
    }
}

"@,
        ),
        crate::text::holds(
            crate::macros::service::service_code(service),
            "impl "@
                + (crate::macros::case::fragment(service.name) + "ViewHandle"@)
                + " {
    /// Returns the latest published view without taking any lock.
    pub fn view(&self) -> rillet::runtime::Arc<"@
                + service.view_type->Some_0
                + "> {
        self.inner.view()
    }

    /// Returns a watcher that has already seen the current view.
    pub fn watch_view(&self) -> rillet::view::ViewWatcher<"@
                + service.view_type->Some_0
                + "> {
        self.inner.watch_view()
    }

"@,
        ),
{
    lemma_handle_name(service);
    lemma_view_handle_name(service);
    let args = seq![
        service.name,
        crate::macros::service::handle_name(service.name),
        service.view_type->Some_0,
        crate::text::filled(VIEW_HANDLE_NAME@, seq![crate::macros::case::fragment(service.name)]),
        crate::macros::service::for_subscriptions(VIEW_SUBSCRIBE@, service.events),
        crate::macros::service::for_gauges(VIEW_SAMPLER@, service.fields),
    ];
    lemma_parts(service);
    lemma_text_view_impls(args);
    let part = "#[derive(Clone)]
pub struct "@
        + (crate::macros::case::fragment(service.name) + "ViewHandle"@)
        + " {
    inner: "@
        + (crate::macros::case::fragment(service.name) + "Handle"@)
        + ",
}

impl From<"@
        + (crate::macros::case::fragment(service.name) + "Handle"@)
        + "> for "@
        + (crate::macros::case::fragment(service.name) + "ViewHandle"@)
        + " {
    fn from(handle: "@
        + (crate::macros::case::fragment(service.name) + "Handle"@)
        + ") -> Self {
        Self { inner: handle }
    }
}

"@;
    crate::text::lemma_holds_through(
        crate::macros::service::service_code(service),
        crate::macros::service::view_impls(service),
        part,
    );
    let part1 = "impl "@ + (crate::macros::case::fragment(service.name) + "ViewHandle"@) + " {
    /// Returns the latest published view without taking any lock.
    pub fn view(&self) -> rillet::runtime::Arc<"@ + service.view_type->Some_0 + "> {
        self.inner.view()
    }

    /// Returns a watcher that has already seen the current view.
    pub fn watch_view(&self) -> rillet::view::ViewWatcher<"@ + service.view_type->Some_0 + "> {
        self.inner.watch_view()
    }

"@;
    crate::text::lemma_holds_through(
        crate::macros::service::service_code(service),
        crate::macros::service::view_impls(service),
        part1,
    );
}

/// The view handle has a subscription for each event and a sampler for each
/// gauge, each through the handle's own, and no other method besides its
/// view's.
pub proof fn law_view_handle_serves_events_and_gauges(service: ServiceView) -> (made: (Seq<Seq<char>>, Seq<Seq<char>>))
    requires
        service.view_type is Some,
    ensures
        crate::text::holds(
            crate::macros::service::service_code(service),
            "        self.inner.watch_view()
    }

    "@
                + crate::text::concat(made.0)
                + "
    "@
                + crate::text::concat(made.1)
                + "
}
"@,
        ),
        made.0.len() == service.events.len(),
        forall|i: int| 0 <= i < service.events.len() ==> #[trigger] made.0[i] == "/// Subscribe to this event type.
pub fn "@
            + ("on_"@ + crate::macros::service::event_name(service.events[i]))
            + "(&self) -> rillet::event::EventReceiver<"@
            + service.events[i]
            + "> {
    self.inner."@
            + ("on_"@ + crate::macros::service::event_name(service.events[i]))
            + "()
}
"@,
        made.1.len() == service.fields.len(),
        forall|i: int| 0 <= i < service.fields.len() ==> #[trigger] made.1[i] == (if service.fields[i].gauge { "/// Samples the gauge without taking any lock.
pub fn "@ + service.fields[i].name + "(&self) -> <"@ + service.fields[i].ty + " as rillet::gauge::GaugeCell>::Value {
    self.inner."@ + service.fields[i].name + "()
}
"@ } else { ""@ }),
{
    let subscribes = service.events.map_values(|event: Seq<char>| crate::macros::service::per_subscription(VIEW_SUBSCRIBE@, event));
    let samplers = service.fields.map_values(|field: ServiceFieldView| crate::macros::service::per_gauge(VIEW_SAMPLER@, field));
    let args = seq![
        service.name,
        crate::macros::service::handle_name(service.name),
        service.view_type->Some_0,
        crate::text::filled(VIEW_HANDLE_NAME@, seq![crate::macros::case::fragment(service.name)]),
        crate::macros::service::for_subscriptions(VIEW_SUBSCRIBE@, service.events),
        crate::macros::service::for_gauges(VIEW_SAMPLER@, service.fields),
    ];
    lemma_parts(service);
    lemma_text_view_impls(args);
    crate::text::lemma_holds_through(
        crate::macros::service::service_code(service),
        crate::macros::service::view_impls(service),
        "        self.inner.watch_view()
    }

    "@
            + crate::text::concat(subscribes)
            + "
    "@
            + crate::text::concat(samplers)
            + "
}
"@,
    );
    assert forall|i: int| 0 <= i < service.events.len() implies #[trigger] subscribes[i] == "/// Subscribe to this event type.
pub fn "@
        + ("on_"@ + crate::macros::service::event_name(service.events[i]))
        + "(&self) -> rillet::event::EventReceiver<"@
        + service.events[i]
        + "> {
    self.inner."@
        + ("on_"@ + crate::macros::service::event_name(service.events[i]))
        + "()
}
"@ by {
        lemma_subscription_of(service.events[i]);
        let vargs = seq![
            crate::macros::handlers::subscription_of(service.events[i]),
            service.events[i],
        ];
        lemma_text_view_subscribe(vargs);
    }
    assert forall|i: int| 0 <= i < service.fields.len() implies #[trigger] samplers[i] == (if service.fields[i].gauge { "/// Samples the gauge without taking any lock.
pub fn "@ + service.fields[i].name + "(&self) -> <"@ + service.fields[i].ty + " as rillet::gauge::GaugeCell>::Value {
    self.inner."@ + service.fields[i].name + "()
}
"@ } else { ""@ }) by {
        let vargs = seq![service.fields[i].name, service.fields[i].ty];
        lemma_text_view_sampler(vargs);
    }
    (subscribes, samplers)
}

/// The struct keeps every field under its visibility, name and type, in their
/// order, and gets the hidden fields behind them, which the constructor
/// initializes: an emitter exactly where the service emits events, and a view
/// slot exactly where it publishes a view.
pub proof fn law_struct_keeps_each_field(input: InputPartsView, service: ServiceView) -> (decls: Seq<Seq<char>>)
    ensures
        decls.len() == service.fields.len(),
        crate::macros::service::struct_text(input, service) == crate::text::concat(input.attrs.map_values(|attr: Seq<char>| crate::macros::handlers::outer_attr(attr)))
            + input.vis
            + " struct "@
            + input.name
            + " "@
            + input.generics
            + " "@
            + input.where_clause
            + " {
    "@
            + (crate::text::concat(decls) + (if service.events.len() > 0 { "#[doc(hidden)]
__rillet_emitter: rillet::event::Emitter,
"@ } else { ""@ }) + (match service.view_type { Some(ty) => "#[doc(hidden)]
__rillet_view_slot: Option<rillet::view::ViewSlot<"@ + ty + ">>,
"@, None => ""@ }) + "#[doc(hidden)]
__rillet_cancel_token: rillet::runtime::CancellationToken,
"@ + "#[doc(hidden)]
__rillet_tasks: rillet::runtime::Arc<rillet::runtime::TaskSet>,
"@ + "#[doc(hidden)]
__rillet_sampling_state: rillet::metrics::SamplingState,
"@ + "#[doc(hidden)]
__rillet_ops: rillet::op::OpsCell,
"@)
            + "
}
"@,
        forall|i: int| 0 <= i < service.fields.len() ==> #[trigger] decls[i] == service.fields[i].attrs
            + service.fields[i].vis
            + " "@
            + service.fields[i].name
            + ": "@
            + service.fields[i].ty
            + ",
"@,
{
    let decls = service.fields.map_values(|f: ServiceFieldView| crate::macros::service::field_decl(f));
    if let Some(ty) = service.view_type {
        let vargs = seq![ty];
        lemma_text_view_slot_field(vargs);
    }
    let args = seq![
        crate::text::concat(input.attrs.map_values(|attr: Seq<char>| crate::macros::handlers::outer_attr(attr))),
        input.vis,
        input.name,
        input.generics,
        input.where_clause,
        crate::macros::service::struct_fields(service),
    ];
    assert(crate::macros::service::struct_fields(service) == (crate::text::concat(decls) + (if service.events.len() > 0 { EMITTER_FIELD@ } else { ""@ }) + (match service.view_type { Some(ty) => "#[doc(hidden)]
__rillet_view_slot: Option<rillet::view::ViewSlot<"@ + ty + ">>,
"@, None => ""@ }) + CANCEL_TOKEN_FIELD@ + TASKS_FIELD@ + SAMPLING_STATE_FIELD@ + OPS_FIELD@));
    lemma_text_struct(args);
    assert forall|i: int| 0 <= i < service.fields.len() implies #[trigger] decls[i] == service.fields[i].attrs
        + service.fields[i].vis
        + " "@
        + service.fields[i].name
        + ": "@
        + service.fields[i].ty
        + ",
"@ by {
        let fargs = seq![
            service.fields[i].attrs,
            service.fields[i].vis,
            service.fields[i].name,
            service.fields[i].ty,
        ];
        lemma_text_field(fargs);
    }
    decls
}

/// What the text of `HANDLE_NAME` says, whatever fills it.
proof fn lemma_text_handle_name(args: Seq<Seq<char>>)
    requires
        args.len() >= 1,
    ensures
        crate::text::filled(HANDLE_NAME@, args) == args[0] + "Handle"@,
{
    reveal_strlit("$0Handle");
    reveal_strlit("Handle");
    let a = Seq::<char>::empty();
    let b = "Handle"@;
    assert(HANDLE_NAME@ =~= a + crate::text::hole(0) + b);
    crate::text::lemma_fills1(a, 0, b, args);
    assert(crate::text::filled(HANDLE_NAME@, args) =~= args[0] + "Handle"@);
}

/// What the text of `CONSTRUCTOR` says, whatever fills it.
proof fn lemma_text_constructor(args: Seq<Seq<char>>)
    requires
        args.len() >= 5,
    ensures
        crate::text::holds(
            crate::text::filled(CONSTRUCTOR@, args),
            "impl "@
                + args[0]
                + " {
    /// Creates a new instance of this service.
    #[allow(clippy::too_many_arguments)]
    pub fn new("@
                + args[1]
                + ") -> Self {
        Self {
            "@
                + args[2]
                + "
            "@
                + args[3]
                + "
            "@
                + args[4]
                + "
            __rillet_cancel_token: rillet::runtime::CancellationToken::new(),
            __rillet_tasks: rillet::runtime::Arc::new(rillet::runtime::TaskSet::new()),
            __rillet_sampling_state: rillet::metrics::SamplingState::new(),
            __rillet_ops: rillet::op::OpsCell::new(),
        }
    }
"@,
        ),
        crate::text::holds(
            crate::text::filled(CONSTRUCTOR@, args),
            "    pub fn cancel(&self) -> rillet::runtime::TaskCompletion {
        self.__rillet_cancel_token.cancel();
        rillet::runtime::TaskCompletion::new(self.__rillet_tasks.clone())
    }
}
"@,
        ),
{
    reveal_strlit("impl $0 {
    /// Creates a new instance of this service.
    #[allow(clippy::too_many_arguments)]
    pub fn new($1) -> Self {
        Self {
            $2
            $3
            $4
            __rillet_cancel_token: rillet::runtime::CancellationToken::new(),
            __rillet_tasks: rillet::runtime::Arc::new(rillet::runtime::TaskSet::new()),
            __rillet_sampling_state: rillet::metrics::SamplingState::new(),
            __rillet_ops: rillet::op::OpsCell::new(),
        }
    }

    /// Signals cancellation to the service loop and its tasks.
    ///
    /// The returned completion waits for them to finish.
    pub fn cancel(&self) -> rillet::runtime::TaskCompletion {
        self.__rillet_cancel_token.cancel();
        rillet::runtime::TaskCompletion::new(self.__rillet_tasks.clone())
    }
}
");
    reveal_strlit("impl ");
    reveal_strlit(" {
    /// Creates a new instance of this service.
    #[allow(clippy::too_many_arguments)]
    pub fn new(");
    reveal_strlit(") -> Self {
        Self {
            ");
    reveal_strlit("
            ");
    reveal_strlit("
            __rillet_cancel_token: rillet::runtime::CancellationToken::new(),
            __rillet_tasks: rillet::runtime::Arc::new(rillet::runtime::TaskSet::new()),
            __rillet_sampling_state: rillet::metrics::SamplingState::new(),
            __rillet_ops: rillet::op::OpsCell::new(),
        }
    }
");
    let a = "impl "@;
    let b = " {
    /// Creates a new instance of this service.
    #[allow(clippy::too_many_arguments)]
    pub fn new("@;
    let c = ") -> Self {
        Self {
            "@;
    let d = "
            "@;
    let e = "
            "@;
    let f = "
            __rillet_cancel_token: rillet::runtime::CancellationToken::new(),
            __rillet_tasks: rillet::runtime::Arc::new(rillet::runtime::TaskSet::new()),
            __rillet_sampling_state: rillet::metrics::SamplingState::new(),
            __rillet_ops: rillet::op::OpsCell::new(),
        }
    }
"@;
    assert(CONSTRUCTOR@.subrange(0, 500) =~= a
        + crate::text::hole(0)
        + b
        + crate::text::hole(1)
        + c
        + crate::text::hole(2)
        + d
        + crate::text::hole(3)
        + e
        + crate::text::hole(4)
        + f);
    crate::text::lemma_reads5(CONSTRUCTOR@, 0, a, 0, b, 1, c, 2, d, 3, e, 4, f, args);
    reveal_strlit("    pub fn cancel(&self) -> rillet::runtime::TaskCompletion {
        self.__rillet_cancel_token.cancel();
        rillet::runtime::TaskCompletion::new(self.__rillet_tasks.clone())
    }
}
");
    let part1 = "    pub fn cancel(&self) -> rillet::runtime::TaskCompletion {
        self.__rillet_cancel_token.cancel();
        rillet::runtime::TaskCompletion::new(self.__rillet_tasks.clone())
    }
}
"@;
    let a = part1;
    assert(CONSTRUCTOR@.subrange(631, 820) =~= a);
    crate::text::lemma_reads0(CONSTRUCTOR@, 631, a, args);
}

/// What the text of `CONSTRUCTOR_PARAM` says, whatever fills it.
proof fn lemma_text_constructor_param(args: Seq<Seq<char>>)
    requires
        args.len() >= 2,
    ensures
        crate::text::filled(CONSTRUCTOR_PARAM@, args) == args[0] + ": "@ + args[1] + ", "@,
{
    reveal_strlit("$0: $1, ");
    reveal_strlit(": ");
    reveal_strlit(", ");
    let a = Seq::<char>::empty();
    let b = ": "@;
    let c = ", "@;
    assert(CONSTRUCTOR_PARAM@ =~= a + crate::text::hole(0) + b + crate::text::hole(1) + c);
    crate::text::lemma_fills2(a, 0, b, 1, c, args);
    assert(crate::text::filled(CONSTRUCTOR_PARAM@, args) =~= args[0] + ": "@ + args[1] + ", "@);
}

/// What the text of `INIT_ARGUMENT` says, whatever fills it.
proof fn lemma_text_init_argument(args: Seq<Seq<char>>)
    requires
        args.len() >= 1,
    ensures
        crate::text::filled(INIT_ARGUMENT@, args) == args[0] + ",
"@,
{
    reveal_strlit("$0,
");
    reveal_strlit(",
");
    let a = Seq::<char>::empty();
    let b = ",
"@;
    assert(INIT_ARGUMENT@ =~= a + crate::text::hole(0) + b);
    crate::text::lemma_fills1(a, 0, b, args);
    assert(crate::text::filled(INIT_ARGUMENT@, args) =~= args[0] + ",
"@);
}

/// What the text of `INIT_DEFAULT` says, whatever fills it.
proof fn lemma_text_init_default(args: Seq<Seq<char>>)
    requires
        args.len() >= 1,
    ensures
        crate::text::filled(INIT_DEFAULT@, args) == args[0] + ": Default::default(),
"@,
{
    reveal_strlit("$0: Default::default(),
");
    reveal_strlit(": Default::default(),
");
    let a = Seq::<char>::empty();
    let b = ": Default::default(),
"@;
    assert(INIT_DEFAULT@ =~= a + crate::text::hole(0) + b);
    crate::text::lemma_fills1(a, 0, b, args);
    assert(crate::text::filled(INIT_DEFAULT@, args) =~= args[0] + ": Default::default(),
"@);
}

/// What the text of `INIT_GIVEN` says, whatever fills it.
proof fn lemma_text_init_given(args: Seq<Seq<char>>)
    requires
        args.len() >= 2,
    ensures
        crate::text::filled(INIT_GIVEN@, args) == args[0] + ": "@ + args[1] + ",
"@,
{
    reveal_strlit("$0: $1,
");
    reveal_strlit(": ");
    reveal_strlit(",
");
    let a = Seq::<char>::empty();
    let b = ": "@;
    let c = ",
"@;
    assert(INIT_GIVEN@ =~= a + crate::text::hole(0) + b + crate::text::hole(1) + c);
    crate::text::lemma_fills2(a, 0, b, 1, c, args);
    assert(crate::text::filled(INIT_GIVEN@, args) =~= args[0] + ": "@ + args[1] + ",
"@);
}

/// What the text of `IMPL` says, whatever fills it.
proof fn lemma_text_impl(args: Seq<Seq<char>>)
    requires
        args.len() >= 2,
    ensures
        crate::text::holds(crate::text::filled(IMPL@, args), " {
    "@ + args[1] + "
}
"@),
        crate::text::filled(IMPL@, args) == "impl "@ + args[0] + " {
    "@ + args[1] + "
}
"@,
{
    reveal_strlit("impl $0 {
    $1
}
");
    reveal_strlit(" {
    ");
    reveal_strlit("
}
");
    let a = " {
    "@;
    let b = "
}
"@;
    assert(IMPL@.subrange(7, 19) =~= a + crate::text::hole(1) + b);
    crate::text::lemma_reads1(IMPL@, 7, a, 1, b, args);
    reveal_strlit("impl ");
    let a = "impl "@;
    let b = " {
    "@;
    let c = "
}
"@;
    assert(IMPL@ =~= a + crate::text::hole(0) + b + crate::text::hole(1) + c);
    crate::text::lemma_fills2(a, 0, b, 1, c, args);
}

/// What the text of `GETTER` says, whatever fills it.
proof fn lemma_text_getter(args: Seq<Seq<char>>)
    requires
        args.len() >= 2,
    ensures
        crate::text::filled(GETTER@, args) == "pub fn "@
            + args[0]
            + "(&self) -> "@
            + args[1]
            + " {
    self.state.read().unwrap()."@
            + args[0]
            + ".clone()
}
"@,
{
    reveal_strlit("pub fn $0(&self) -> $1 {
    self.state.read().unwrap().$0.clone()
}
");
    reveal_strlit("pub fn ");
    reveal_strlit("(&self) -> ");
    reveal_strlit(" {
    self.state.read().unwrap().");
    reveal_strlit(".clone()
}
");
    let a = "pub fn "@;
    let b = "(&self) -> "@;
    let c = " {
    self.state.read().unwrap()."@;
    let d = ".clone()
}
"@;
    assert(GETTER@ =~= a
        + crate::text::hole(0)
        + b
        + crate::text::hole(1)
        + c
        + crate::text::hole(0)
        + d);
    crate::text::lemma_fills3(a, 0, b, 1, c, 0, d, args);
}

/// What the text of `GAUGES` says, whatever fills it.
proof fn lemma_text_gauges(args: Seq<Seq<char>>)
    requires
        args.len() >= 6,
    ensures
        crate::text::holds(
            crate::text::filled(GAUGES@, args),
            "#[doc(hidden)]
#[derive(Clone)]
pub struct __"@
                + args[0]
                + "Gauges {
    "@
                + args[1]
                + "
}

"@,
        ),
        crate::text::holds(
            crate::text::filled(GAUGES@, args),
            "impl "@
                + args[2]
                + " {
    #[doc(hidden)]
    pub fn __rillet_gauges(&self) -> __"@
                + args[0]
                + "Gauges {
        __"@
                + args[0]
                + "Gauges {
            "@
                + args[3]
                + "
        }
    }
}

"@,
        ),
        crate::text::holds(
            crate::text::filled(GAUGES@, args),
            "impl "@
                + args[4]
                + " {
    "@
                + args[5]
                + "
}
"@,
        ),
{
    reveal_strlit("#[doc(hidden)]
#[derive(Clone)]
pub struct __$0Gauges {
    $1
}

impl $2 {
    #[doc(hidden)]
    pub fn __rillet_gauges(&self) -> __$0Gauges {
        __$0Gauges {
            $3
        }
    }
}

impl $4 {
    $5
}
");
    reveal_strlit("#[doc(hidden)]
#[derive(Clone)]
pub struct __");
    reveal_strlit("Gauges {
    ");
    reveal_strlit("
}

");
    let a = "#[doc(hidden)]
#[derive(Clone)]
pub struct __"@;
    let b = "Gauges {
    "@;
    let c = "
}

"@;
    assert(GAUGES@.subrange(0, 66) =~= a + crate::text::hole(0) + b + crate::text::hole(1) + c);
    crate::text::lemma_reads2(GAUGES@, 0, a, 0, b, 1, c, args);
    reveal_strlit("impl ");
    reveal_strlit(" {
    #[doc(hidden)]
    pub fn __rillet_gauges(&self) -> __");
    reveal_strlit("Gauges {
        __");
    reveal_strlit("Gauges {
            ");
    reveal_strlit("
        }
    }
}

");
    let a = "impl "@;
    let b = " {
    #[doc(hidden)]
    pub fn __rillet_gauges(&self) -> __"@;
    let c = "Gauges {
        __"@;
    let d = "Gauges {
            "@;
    let e = "
        }
    }
}

"@;
    assert(GAUGES@.subrange(66, 200) =~= a
        + crate::text::hole(2)
        + b
        + crate::text::hole(0)
        + c
        + crate::text::hole(0)
        + d
        + crate::text::hole(3)
        + e);
    crate::text::lemma_reads4(GAUGES@, 66, a, 2, b, 0, c, 0, d, 3, e, args);
    reveal_strlit(" {
    ");
    reveal_strlit("
}
");
    let a = "impl "@;
    let b = " {
    "@;
    let c = "
}
"@;
    assert(GAUGES@.subrange(200, 219) =~= a + crate::text::hole(4) + b + crate::text::hole(5) + c);
    crate::text::lemma_reads2(GAUGES@, 200, a, 4, b, 5, c, args);
}

/// What the text of `GAUGE_FIELD` says, whatever fills it.
proof fn lemma_text_gauge_field(args: Seq<Seq<char>>)
    requires
        args.len() >= 2,
    ensures
        crate::text::filled(GAUGE_FIELD@, args) == args[0] + ": "@ + args[1] + ",
"@,
{
    reveal_strlit("$0: $1,
");
    reveal_strlit(": ");
    reveal_strlit(",
");
    let a = Seq::<char>::empty();
    let b = ": "@;
    let c = ",
"@;
    assert(GAUGE_FIELD@ =~= a + crate::text::hole(0) + b + crate::text::hole(1) + c);
    crate::text::lemma_fills2(a, 0, b, 1, c, args);
    assert(crate::text::filled(GAUGE_FIELD@, args) =~= args[0] + ": "@ + args[1] + ",
"@);
}

/// What the text of `GAUGE_CLONE` says, whatever fills it.
proof fn lemma_text_gauge_clone(args: Seq<Seq<char>>)
    requires
        args.len() >= 1,
    ensures
        crate::text::filled(GAUGE_CLONE@, args) == args[0] + ": self."@ + args[0] + ".clone(),
"@,
{
    reveal_strlit("$0: self.$0.clone(),
");
    reveal_strlit(": self.");
    reveal_strlit(".clone(),
");
    let a = Seq::<char>::empty();
    let b = ": self."@;
    let c = ".clone(),
"@;
    assert(GAUGE_CLONE@ =~= a + crate::text::hole(0) + b + crate::text::hole(0) + c);
    crate::text::lemma_fills2(a, 0, b, 0, c, args);
    assert(crate::text::filled(GAUGE_CLONE@, args) =~= args[0] + ": self."@ + args[0] + ".clone(),
"@);
}

/// What the text of `SAMPLER` says, whatever fills it.
proof fn lemma_text_sampler(args: Seq<Seq<char>>)
    requires
        args.len() >= 2,
    ensures
        crate::text::filled(SAMPLER@, args) == "/// Samples the gauge without touching the service's state lock.
pub fn "@
            + args[0]
            + "(&self) -> <"@
            + args[1]
            + " as rillet::gauge::GaugeCell>::Value {
    rillet::gauge::GaugeCell::load(&self.__rillet_gauges."@
            + args[0]
            + ")
}
"@,
{
    reveal_strlit("/// Samples the gauge without touching the service's state lock.
pub fn $0(&self) -> <$1 as rillet::gauge::GaugeCell>::Value {
    rillet::gauge::GaugeCell::load(&self.__rillet_gauges.$0)
}
");
    reveal_strlit("/// Samples the gauge without touching the service's state lock.
pub fn ");
    reveal_strlit("(&self) -> <");
    reveal_strlit(" as rillet::gauge::GaugeCell>::Value {
    rillet::gauge::GaugeCell::load(&self.__rillet_gauges.");
    reveal_strlit(")
}
");
    let a = "/// Samples the gauge without touching the service's state lock.
pub fn "@;
    let b = "(&self) -> <"@;
    let c = " as rillet::gauge::GaugeCell>::Value {
    rillet::gauge::GaugeCell::load(&self.__rillet_gauges."@;
    let d = ")
}
"@;
    assert(SAMPLER@ =~= a
        + crate::text::hole(0)
        + b
        + crate::text::hole(1)
        + c
        + crate::text::hole(0)
        + d);
    crate::text::lemma_fills3(a, 0, b, 1, c, 0, d, args);
}

/// What the text of `ON_EVENT` says, whatever fills it.
proof fn lemma_text_on_event(args: Seq<Seq<char>>)
    requires
        args.len() >= 1,
    ensures
        crate::text::filled(ON_EVENT@, args) == "on_"@ + args[0],
{
    reveal_strlit("on_$0");
    reveal_strlit("on_");
    let a = "on_"@;
    let b = Seq::<char>::empty();
    assert(ON_EVENT@ =~= a + crate::text::hole(0) + b);
    crate::text::lemma_fills1(a, 0, b, args);
    assert(crate::text::filled(ON_EVENT@, args) =~= "on_"@ + args[0]);
}

/// What the text of `SUBSCRIBE` says, whatever fills it.
proof fn lemma_text_subscribe(args: Seq<Seq<char>>)
    requires
        args.len() >= 2,
    ensures
        crate::text::filled(SUBSCRIBE@, args) == "/// Returns a receiver for all future events of this type.
pub fn "@
            + args[0]
            + "(&self) -> rillet::event::EventReceiver<"@
            + args[1]
            + "> {
    rillet::event::EventReceiver::new(
        self.state.read().unwrap().__rillet_emitter.subscribe::<"@
            + args[1]
            + ">()
    )
}
"@,
{
    reveal_strlit("/// Returns a receiver for all future events of this type.
pub fn $0(&self) -> rillet::event::EventReceiver<$1> {
    rillet::event::EventReceiver::new(
        self.state.read().unwrap().__rillet_emitter.subscribe::<$1>()
    )
}
");
    reveal_strlit("/// Returns a receiver for all future events of this type.
pub fn ");
    reveal_strlit("(&self) -> rillet::event::EventReceiver<");
    reveal_strlit("> {
    rillet::event::EventReceiver::new(
        self.state.read().unwrap().__rillet_emitter.subscribe::<");
    reveal_strlit(">()
    )
}
");
    let a = "/// Returns a receiver for all future events of this type.
pub fn "@;
    let b = "(&self) -> rillet::event::EventReceiver<"@;
    let c = "> {
    rillet::event::EventReceiver::new(
        self.state.read().unwrap().__rillet_emitter.subscribe::<"@;
    let d = ">()
    )
}
"@;
    assert(SUBSCRIBE@ =~= a
        + crate::text::hole(0)
        + b
        + crate::text::hole(1)
        + c
        + crate::text::hole(1)
        + d);
    crate::text::lemma_fills3(a, 0, b, 1, c, 1, d, args);
}

/// What the text of `HANDLE_EMIT` says, whatever fills it.
proof fn lemma_text_handle_emit(args: Seq<Seq<char>>)
    requires
        args.len() >= 2,
    ensures
        crate::text::filled(HANDLE_EMIT@, args) == "/// Emits the event to all subscribers.
pub fn emit_"@
            + args[0]
            + "(&self, event: "@
            + args[1]
            + ") {
    self.state.read().unwrap().__rillet_emitter.emit(event);
}
"@,
{
    reveal_strlit("/// Emits the event to all subscribers.
pub fn emit_$0(&self, event: $1) {
    self.state.read().unwrap().__rillet_emitter.emit(event);
}
");
    reveal_strlit("/// Emits the event to all subscribers.
pub fn emit_");
    reveal_strlit("(&self, event: ");
    reveal_strlit(") {
    self.state.read().unwrap().__rillet_emitter.emit(event);
}
");
    let a = "/// Emits the event to all subscribers.
pub fn emit_"@;
    let b = "(&self, event: "@;
    let c = ") {
    self.state.read().unwrap().__rillet_emitter.emit(event);
}
"@;
    assert(HANDLE_EMIT@ =~= a + crate::text::hole(0) + b + crate::text::hole(1) + c);
    crate::text::lemma_fills2(a, 0, b, 1, c, args);
}

/// What the text of `EVENT_STATS` says, whatever fills it.
proof fn lemma_text_event_stats(args: Seq<Seq<char>>)
    requires
        args.len() >= 2,
    ensures
        crate::text::filled(EVENT_STATS@, args) == "/// Returns the total number of events published for this event type.
pub fn "@
            + args[0]
            + "_published(&self) -> u64 {
    self.state.read().unwrap().__rillet_emitter.published::<"@
            + args[1]
            + ">()
}

/// Returns the current number of subscribers for this event type.
pub fn "@
            + args[0]
            + "_subscriber_count(&self) -> usize {
    self.state.read().unwrap().__rillet_emitter.subscriber_count::<"@
            + args[1]
            + ">()
}
"@,
{
    reveal_strlit("/// Returns the total number of events published for this event type.
pub fn $0_published(&self) -> u64 {
    self.state.read().unwrap().__rillet_emitter.published::<$1>()
}

/// Returns the current number of subscribers for this event type.
pub fn $0_subscriber_count(&self) -> usize {
    self.state.read().unwrap().__rillet_emitter.subscriber_count::<$1>()
}
");
    reveal_strlit("/// Returns the total number of events published for this event type.
pub fn ");
    reveal_strlit("_published(&self) -> u64 {
    self.state.read().unwrap().__rillet_emitter.published::<");
    reveal_strlit(">()
}

/// Returns the current number of subscribers for this event type.
pub fn ");
    reveal_strlit("_subscriber_count(&self) -> usize {
    self.state.read().unwrap().__rillet_emitter.subscriber_count::<");
    reveal_strlit(">()
}
");
    let a = "/// Returns the total number of events published for this event type.
pub fn "@;
    let b = "_published(&self) -> u64 {
    self.state.read().unwrap().__rillet_emitter.published::<"@;
    let c = ">()
}

/// Returns the current number of subscribers for this event type.
pub fn "@;
    let d = "_subscriber_count(&self) -> usize {
    self.state.read().unwrap().__rillet_emitter.subscriber_count::<"@;
    let e = ">()
}
"@;
    assert(EVENT_STATS@ =~= a
        + crate::text::hole(0)
        + b
        + crate::text::hole(1)
        + c
        + crate::text::hole(0)
        + d
        + crate::text::hole(1)
        + e);
    crate::text::lemma_fills4(a, 0, b, 1, c, 0, d, 1, e, args);
}

/// What the text of `NO_EMITTER` says, whatever fills it.
proof fn lemma_text_no_emitter(args: Seq<Seq<char>>)
    requires
        args.len() >= 1,
    ensures
        crate::text::filled(NO_EMITTER@, args) == "impl "@
            + args[0]
            + " {
    #[doc(hidden)]
    pub fn __rillet_wire_emitter(&mut self) {}
}
"@,
{
    reveal_strlit("impl $0 {
    #[doc(hidden)]
    pub fn __rillet_wire_emitter(&mut self) {}
}
");
    reveal_strlit("impl ");
    reveal_strlit(" {
    #[doc(hidden)]
    pub fn __rillet_wire_emitter(&mut self) {}
}
");
    let a = "impl "@;
    let b = " {
    #[doc(hidden)]
    pub fn __rillet_wire_emitter(&mut self) {}
}
"@;
    assert(NO_EMITTER@ =~= a + crate::text::hole(0) + b);
    crate::text::lemma_fills1(a, 0, b, args);
}

/// What the text of `WIRE_EMITTER` says, whatever fills it.
proof fn lemma_text_wire_emitter(args: Seq<Seq<char>>)
    requires
        args.len() >= 3,
    ensures
        crate::text::filled(WIRE_EMITTER@, args) == "impl "@
            + args[0]
            + " {
    "@
            + args[1]
            + "

    /// Creates the event channels. Called by the spawn methods.
    #[doc(hidden)]
    pub fn __rillet_wire_emitter(&mut self) {
        let mut builder = rillet::event::EmitterBuilder::new();
        "@
            + args[2]
            + "
        self.__rillet_emitter = builder.build();
    }
}
"@,
{
    reveal_strlit("impl $0 {
    $1

    /// Creates the event channels. Called by the spawn methods.
    #[doc(hidden)]
    pub fn __rillet_wire_emitter(&mut self) {
        let mut builder = rillet::event::EmitterBuilder::new();
        $2
        self.__rillet_emitter = builder.build();
    }
}
");
    reveal_strlit("impl ");
    reveal_strlit(" {
    ");
    reveal_strlit("

    /// Creates the event channels. Called by the spawn methods.
    #[doc(hidden)]
    pub fn __rillet_wire_emitter(&mut self) {
        let mut builder = rillet::event::EmitterBuilder::new();
        ");
    reveal_strlit("
        self.__rillet_emitter = builder.build();
    }
}
");
    let a = "impl "@;
    let b = " {
    "@;
    let c = "

    /// Creates the event channels. Called by the spawn methods.
    #[doc(hidden)]
    pub fn __rillet_wire_emitter(&mut self) {
        let mut builder = rillet::event::EmitterBuilder::new();
        "@;
    let d = "
        self.__rillet_emitter = builder.build();
    }
}
"@;
    assert(WIRE_EMITTER@ =~= a
        + crate::text::hole(0)
        + b
        + crate::text::hole(1)
        + c
        + crate::text::hole(2)
        + d);
    crate::text::lemma_fills3(a, 0, b, 1, c, 2, d, args);
}

/// What the text of `EMIT` says, whatever fills it.
proof fn lemma_text_emit(args: Seq<Seq<char>>)
    requires
        args.len() >= 2,
    ensures
        crate::text::filled(EMIT@, args) == "/// Emits the event to all subscribers.
fn emit_"@
            + args[0]
            + "(&self, event: "@
            + args[1]
            + ") {
    self.__rillet_emitter.emit(event);
}
"@,
{
    reveal_strlit("/// Emits the event to all subscribers.
fn emit_$0(&self, event: $1) {
    self.__rillet_emitter.emit(event);
}
");
    reveal_strlit("/// Emits the event to all subscribers.
fn emit_");
    reveal_strlit("(&self, event: ");
    reveal_strlit(") {
    self.__rillet_emitter.emit(event);
}
");
    let a = "/// Emits the event to all subscribers.
fn emit_"@;
    let b = "(&self, event: "@;
    let c = ") {
    self.__rillet_emitter.emit(event);
}
"@;
    assert(EMIT@ =~= a + crate::text::hole(0) + b + crate::text::hole(1) + c);
    crate::text::lemma_fills2(a, 0, b, 1, c, args);
}

/// What the text of `ADD_EVENT` says, whatever fills it.
proof fn lemma_text_add_event(args: Seq<Seq<char>>)
    requires
        args.len() >= 2,
    ensures
        crate::text::filled(ADD_EVENT@, args) == "builder.add_event::<"@
            + args[0]
            + ">("@
            + args[1]
            + ");
"@,
{
    reveal_strlit("builder.add_event::<$0>($1);
");
    reveal_strlit("builder.add_event::<");
    reveal_strlit(">(");
    reveal_strlit(");
");
    let a = "builder.add_event::<"@;
    let b = ">("@;
    let c = ");
"@;
    assert(ADD_EVENT@ =~= a + crate::text::hole(0) + b + crate::text::hole(1) + c);
    crate::text::lemma_fills2(a, 0, b, 1, c, args);
}

/// What the text of `HAS_OBSERVERS` says, whatever fills it.
proof fn lemma_text_has_observers(args: Seq<Seq<char>>)
    requires
        args.len() >= 3,
    ensures
        crate::text::filled(HAS_OBSERVERS@, args) == "impl "@
            + args[0]
            + " {
    /// Whether anyone subscribes to an event or watches the view.
    #[doc(hidden)]
    pub fn __rillet_has_observers(&self) -> bool {
        "@
            + args[1]
            + " "@
            + args[2]
            + " false
    }
}
"@,
{
    reveal_strlit("impl $0 {
    /// Whether anyone subscribes to an event or watches the view.
    #[doc(hidden)]
    pub fn __rillet_has_observers(&self) -> bool {
        $1 $2 false
    }
}
");
    reveal_strlit("impl ");
    reveal_strlit(" {
    /// Whether anyone subscribes to an event or watches the view.
    #[doc(hidden)]
    pub fn __rillet_has_observers(&self) -> bool {
        ");
    reveal_strlit(" ");
    reveal_strlit(" false
    }
}
");
    let a = "impl "@;
    let b = " {
    /// Whether anyone subscribes to an event or watches the view.
    #[doc(hidden)]
    pub fn __rillet_has_observers(&self) -> bool {
        "@;
    let c = " "@;
    let d = " false
    }
}
"@;
    assert(HAS_OBSERVERS@ =~= a
        + crate::text::hole(0)
        + b
        + crate::text::hole(1)
        + c
        + crate::text::hole(2)
        + d);
    crate::text::lemma_fills3(a, 0, b, 1, c, 2, d, args);
}

/// What the text of `OBSERVED_EVENT` says, whatever fills it.
proof fn lemma_text_observed_event(args: Seq<Seq<char>>)
    requires
        args.len() >= 1,
    ensures
        crate::text::filled(OBSERVED_EVENT@, args) == "self.__rillet_emitter.subscriber_count::<"@
            + args[0]
            + ">() > 0 || "@,
{
    reveal_strlit("self.__rillet_emitter.subscriber_count::<$0>() > 0 || ");
    reveal_strlit("self.__rillet_emitter.subscriber_count::<");
    reveal_strlit(">() > 0 || ");
    let a = "self.__rillet_emitter.subscriber_count::<"@;
    let b = ">() > 0 || "@;
    assert(OBSERVED_EVENT@ =~= a + crate::text::hole(0) + b);
    crate::text::lemma_fills1(a, 0, b, args);
}

/// What the text of `SHUTDOWN` says, whatever fills it.
proof fn lemma_text_shutdown(args: Seq<Seq<char>>)
    requires
        args.len() >= 1,
    ensures
        crate::text::filled(SHUTDOWN@, args) == "impl "@
            + args[0]
            + " {
    /// Returns the service's cancellation token.
    pub fn cancel_token(&self) -> rillet::runtime::CancellationToken {
        self.__rillet_cancel.clone()
    }

    /// Signals cancellation to the service loop and its tasks.
    ///
    /// The returned completion waits for them to finish.
    pub fn cancel(&self) -> rillet::runtime::TaskCompletion {
        self.__rillet_cancel.cancel();
        self.task_completion()
    }

    /// Returns a completion for the service's tasks without
    /// cancelling them.
    pub fn task_completion(&self) -> rillet::runtime::TaskCompletion {
        rillet::runtime::TaskCompletion::new(self.__rillet_tasks.clone())
    }
}
"@,
{
    reveal_strlit("impl $0 {
    /// Returns the service's cancellation token.
    pub fn cancel_token(&self) -> rillet::runtime::CancellationToken {
        self.__rillet_cancel.clone()
    }

    /// Signals cancellation to the service loop and its tasks.
    ///
    /// The returned completion waits for them to finish.
    pub fn cancel(&self) -> rillet::runtime::TaskCompletion {
        self.__rillet_cancel.cancel();
        self.task_completion()
    }

    /// Returns a completion for the service's tasks without
    /// cancelling them.
    pub fn task_completion(&self) -> rillet::runtime::TaskCompletion {
        rillet::runtime::TaskCompletion::new(self.__rillet_tasks.clone())
    }
}
");
    reveal_strlit("impl ");
    reveal_strlit(" {
    /// Returns the service's cancellation token.
    pub fn cancel_token(&self) -> rillet::runtime::CancellationToken {
        self.__rillet_cancel.clone()
    }

    /// Signals cancellation to the service loop and its tasks.
    ///
    /// The returned completion waits for them to finish.
    pub fn cancel(&self) -> rillet::runtime::TaskCompletion {
        self.__rillet_cancel.cancel();
        self.task_completion()
    }

    /// Returns a completion for the service's tasks without
    /// cancelling them.
    pub fn task_completion(&self) -> rillet::runtime::TaskCompletion {
        rillet::runtime::TaskCompletion::new(self.__rillet_tasks.clone())
    }
}
");
    let a = "impl "@;
    let b = " {
    /// Returns the service's cancellation token.
    pub fn cancel_token(&self) -> rillet::runtime::CancellationToken {
        self.__rillet_cancel.clone()
    }

    /// Signals cancellation to the service loop and its tasks.
    ///
    /// The returned completion waits for them to finish.
    pub fn cancel(&self) -> rillet::runtime::TaskCompletion {
        self.__rillet_cancel.cancel();
        self.task_completion()
    }

    /// Returns a completion for the service's tasks without
    /// cancelling them.
    pub fn task_completion(&self) -> rillet::runtime::TaskCompletion {
        rillet::runtime::TaskCompletion::new(self.__rillet_tasks.clone())
    }
}
"@;
    assert(SHUTDOWN@ =~= a + crate::text::hole(0) + b);
    crate::text::lemma_fills1(a, 0, b, args);
}

/// What the text of `CAPACITY` says, whatever fills it.
proof fn lemma_text_capacity(args: Seq<Seq<char>>)
    requires
        args.len() >= 2,
    ensures
        crate::text::filled(CAPACITY@, args) == "impl "@
            + args[0]
            + " {
    #[doc(hidden)]
    pub const __RILLET_COMMAND_CAPACITY: usize = "@
            + args[1]
            + ";
}
"@,
{
    reveal_strlit("impl $0 {
    #[doc(hidden)]
    pub const __RILLET_COMMAND_CAPACITY: usize = $1;
}
");
    reveal_strlit("impl ");
    reveal_strlit(" {
    #[doc(hidden)]
    pub const __RILLET_COMMAND_CAPACITY: usize = ");
    reveal_strlit(";
}
");
    let a = "impl "@;
    let b = " {
    #[doc(hidden)]
    pub const __RILLET_COMMAND_CAPACITY: usize = "@;
    let c = ";
}
"@;
    assert(CAPACITY@ =~= a + crate::text::hole(0) + b + crate::text::hole(1) + c);
    crate::text::lemma_fills2(a, 0, b, 1, c, args);
}

/// What the text of `NO_VIEW` says, whatever fills it.
proof fn lemma_text_no_view(args: Seq<Seq<char>>)
    requires
        args.len() >= 1,
    ensures
        crate::text::filled(NO_VIEW@, args) == "impl "@
            + args[0]
            + " {
    #[doc(hidden)]
    pub fn __rillet_seed_view(&mut self) {}

    #[doc(hidden)]
    pub fn __rillet_view_slot_any(
        &self,
    ) -> Option<rillet::runtime::Arc<dyn std::any::Any + Send + Sync>> {
        None
    }

    #[doc(hidden)]
    pub fn __rillet_publish_view(&self) {}
}
"@,
{
    reveal_strlit("impl $0 {
    #[doc(hidden)]
    pub fn __rillet_seed_view(&mut self) {}

    #[doc(hidden)]
    pub fn __rillet_view_slot_any(
        &self,
    ) -> Option<rillet::runtime::Arc<dyn std::any::Any + Send + Sync>> {
        None
    }

    #[doc(hidden)]
    pub fn __rillet_publish_view(&self) {}
}
");
    reveal_strlit("impl ");
    reveal_strlit(" {
    #[doc(hidden)]
    pub fn __rillet_seed_view(&mut self) {}

    #[doc(hidden)]
    pub fn __rillet_view_slot_any(
        &self,
    ) -> Option<rillet::runtime::Arc<dyn std::any::Any + Send + Sync>> {
        None
    }

    #[doc(hidden)]
    pub fn __rillet_publish_view(&self) {}
}
");
    let a = "impl "@;
    let b = " {
    #[doc(hidden)]
    pub fn __rillet_seed_view(&mut self) {}

    #[doc(hidden)]
    pub fn __rillet_view_slot_any(
        &self,
    ) -> Option<rillet::runtime::Arc<dyn std::any::Any + Send + Sync>> {
        None
    }

    #[doc(hidden)]
    pub fn __rillet_publish_view(&self) {}
}
"@;
    assert(NO_VIEW@ =~= a + crate::text::hole(0) + b);
    crate::text::lemma_fills1(a, 0, b, args);
}

/// What the text of `VIEW_HANDLE_NAME` says, whatever fills it.
proof fn lemma_text_view_handle_name(args: Seq<Seq<char>>)
    requires
        args.len() >= 1,
    ensures
        crate::text::filled(VIEW_HANDLE_NAME@, args) == args[0] + "ViewHandle"@,
{
    reveal_strlit("$0ViewHandle");
    reveal_strlit("ViewHandle");
    let a = Seq::<char>::empty();
    let b = "ViewHandle"@;
    assert(VIEW_HANDLE_NAME@ =~= a + crate::text::hole(0) + b);
    crate::text::lemma_fills1(a, 0, b, args);
    assert(crate::text::filled(VIEW_HANDLE_NAME@, args) =~= args[0] + "ViewHandle"@);
}

/// What the text of `VIEW_IMPLS` says, whatever fills it.
proof fn lemma_text_view_impls(args: Seq<Seq<char>>)
    requires
        args.len() >= 6,
    ensures
        crate::text::holds(
            crate::text::filled(VIEW_IMPLS@, args),
            "impl "@
                + args[0]
                + " {
    /// Seeds the view slot from the initial state.
    #[doc(hidden)]
    pub fn __rillet_seed_view(&mut self) {
        self.__rillet_view_slot = Some(rillet::view::ViewSlot::new(self.view()));
    }

    #[doc(hidden)]
    pub fn __rillet_view_slot_any(
        &self,
    ) -> Option<rillet::runtime::Arc<dyn std::any::Any + Send + Sync>> {
        self.__rillet_view_slot.as_ref().map(|slot| {
            rillet::runtime::Arc::new(slot.clone())
                as rillet::runtime::Arc<dyn std::any::Any + Send + Sync>
        })
    }

    /// Recomputes the view and publishes it if it changed.
    ///
    /// Callers hold the state write lock.
    #[doc(hidden)]
    pub fn __rillet_publish_view(&self) {
        if let Some(slot) = &self.__rillet_view_slot {
            slot.publish(self.view());
        }
    }
}

"@,
        ),
        crate::text::holds(
            crate::text::filled(VIEW_IMPLS@, args),
            "impl "@
                + args[1]
                + " {
    #[doc(hidden)]
    fn __rillet_slot(&self) -> &rillet::view::ViewSlot<"@
                + args[2]
                + "> {
        self.__rillet_view
            .as_ref()
            .and_then(|slot| slot.downcast_ref::<rillet::view::ViewSlot<"@
                + args[2]
                + ">>())
            .expect(\"view slot not seeded at spawn\")
    }

    /// Returns the latest published view without taking any lock.
    pub fn view(&self) -> rillet::runtime::Arc<"@
                + args[2]
                + "> {
        self.__rillet_slot().load()
    }

"@,
        ),
        crate::text::holds(
            crate::text::filled(VIEW_IMPLS@, args),
            "    /// Returns a watcher that has already seen the current view.
    pub fn watch_view(&self) -> rillet::view::ViewWatcher<"@
                + args[2]
                + "> {
        self.__rillet_slot().watch()
    }

    /// Blocks the thread until a published view meets the condition, or
    /// returns `None` once the service is cancelled.
    pub fn wait_view(
        &self,
        condition: impl FnMut(&"@
                + args[2]
                + ") -> bool,
    ) -> Option<rillet::runtime::Arc<"@
                + args[2]
                + ">> {
        rillet::runtime::wait_view(self.watch_view(), &self.__rillet_cancel, condition)
    }
}

/// A read-only handle to the service: its view and its events.
///
/// It exposes no commands, getters, or direct methods, and takes no
/// locks.
"@,
        ),
        crate::text::holds(
            crate::text::filled(VIEW_IMPLS@, args),
            "#[derive(Clone)]
pub struct "@
                + args[3]
                + " {
    inner: "@
                + args[1]
                + ",
}

impl From<"@
                + args[1]
                + "> for "@
                + args[3]
                + " {
    fn from(handle: "@
                + args[1]
                + ") -> Self {
        Self { inner: handle }
    }
}

"@,
        ),
        crate::text::holds(
            crate::text::filled(VIEW_IMPLS@, args),
            "impl "@
                + args[3]
                + " {
    /// Returns the latest published view without taking any lock.
    pub fn view(&self) -> rillet::runtime::Arc<"@
                + args[2]
                + "> {
        self.inner.view()
    }

    /// Returns a watcher that has already seen the current view.
    pub fn watch_view(&self) -> rillet::view::ViewWatcher<"@
                + args[2]
                + "> {
        self.inner.watch_view()
    }

"@,
        ),
        crate::text::holds(
            crate::text::filled(VIEW_IMPLS@, args),
            "        self.inner.watch_view()
    }

    "@
                + args[4]
                + "
    "@
                + args[5]
                + "
}
"@,
        ),
{
    reveal_strlit("impl $0 {
    /// Seeds the view slot from the initial state.
    #[doc(hidden)]
    pub fn __rillet_seed_view(&mut self) {
        self.__rillet_view_slot = Some(rillet::view::ViewSlot::new(self.view()));
    }

    #[doc(hidden)]
    pub fn __rillet_view_slot_any(
        &self,
    ) -> Option<rillet::runtime::Arc<dyn std::any::Any + Send + Sync>> {
        self.__rillet_view_slot.as_ref().map(|slot| {
            rillet::runtime::Arc::new(slot.clone())
                as rillet::runtime::Arc<dyn std::any::Any + Send + Sync>
        })
    }

    /// Recomputes the view and publishes it if it changed.
    ///
    /// Callers hold the state write lock.
    #[doc(hidden)]
    pub fn __rillet_publish_view(&self) {
        if let Some(slot) = &self.__rillet_view_slot {
            slot.publish(self.view());
        }
    }
}

impl $1 {
    #[doc(hidden)]
    fn __rillet_slot(&self) -> &rillet::view::ViewSlot<$2> {
        self.__rillet_view
            .as_ref()
            .and_then(|slot| slot.downcast_ref::<rillet::view::ViewSlot<$2>>())
            .expect(\"view slot not seeded at spawn\")
    }

    /// Returns the latest published view without taking any lock.
    pub fn view(&self) -> rillet::runtime::Arc<$2> {
        self.__rillet_slot().load()
    }

    /// Returns a watcher that has already seen the current view.
    pub fn watch_view(&self) -> rillet::view::ViewWatcher<$2> {
        self.__rillet_slot().watch()
    }

    /// Blocks the thread until a published view meets the condition, or
    /// returns `None` once the service is cancelled.
    pub fn wait_view(
        &self,
        condition: impl FnMut(&$2) -> bool,
    ) -> Option<rillet::runtime::Arc<$2>> {
        rillet::runtime::wait_view(self.watch_view(), &self.__rillet_cancel, condition)
    }
}

/// A read-only handle to the service: its view and its events.
///
/// It exposes no commands, getters, or direct methods, and takes no
/// locks.
#[derive(Clone)]
pub struct $3 {
    inner: $1,
}

impl From<$1> for $3 {
    fn from(handle: $1) -> Self {
        Self { inner: handle }
    }
}

impl $3 {
    /// Returns the latest published view without taking any lock.
    pub fn view(&self) -> rillet::runtime::Arc<$2> {
        self.inner.view()
    }

    /// Returns a watcher that has already seen the current view.
    pub fn watch_view(&self) -> rillet::view::ViewWatcher<$2> {
        self.inner.watch_view()
    }

    $4
    $5
}
");
    reveal_strlit("impl ");
    reveal_strlit(" {
    /// Seeds the view slot from the initial state.
    #[doc(hidden)]
    pub fn __rillet_seed_view(&mut self) {
        self.__rillet_view_slot = Some(rillet::view::ViewSlot::new(self.view()));
    }

    #[doc(hidden)]
    pub fn __rillet_view_slot_any(
        &self,
    ) -> Option<rillet::runtime::Arc<dyn std::any::Any + Send + Sync>> {
        self.__rillet_view_slot.as_ref().map(|slot| {
            rillet::runtime::Arc::new(slot.clone())
                as rillet::runtime::Arc<dyn std::any::Any + Send + Sync>
        })
    }

    /// Recomputes the view and publishes it if it changed.
    ///
    /// Callers hold the state write lock.
    #[doc(hidden)]
    pub fn __rillet_publish_view(&self) {
        if let Some(slot) = &self.__rillet_view_slot {
            slot.publish(self.view());
        }
    }
}

");
    let a = "impl "@;
    let b = " {
    /// Seeds the view slot from the initial state.
    #[doc(hidden)]
    pub fn __rillet_seed_view(&mut self) {
        self.__rillet_view_slot = Some(rillet::view::ViewSlot::new(self.view()));
    }

    #[doc(hidden)]
    pub fn __rillet_view_slot_any(
        &self,
    ) -> Option<rillet::runtime::Arc<dyn std::any::Any + Send + Sync>> {
        self.__rillet_view_slot.as_ref().map(|slot| {
            rillet::runtime::Arc::new(slot.clone())
                as rillet::runtime::Arc<dyn std::any::Any + Send + Sync>
        })
    }

    /// Recomputes the view and publishes it if it changed.
    ///
    /// Callers hold the state write lock.
    #[doc(hidden)]
    pub fn __rillet_publish_view(&self) {
        if let Some(slot) = &self.__rillet_view_slot {
            slot.publish(self.view());
        }
    }
}

"@;
    assert(VIEW_IMPLS@.subrange(0, 837) =~= a + crate::text::hole(0) + b);
    crate::text::lemma_reads1(VIEW_IMPLS@, 0, a, 0, b, args);
    reveal_strlit(" {
    #[doc(hidden)]
    fn __rillet_slot(&self) -> &rillet::view::ViewSlot<");
    reveal_strlit("> {
        self.__rillet_view
            .as_ref()
            .and_then(|slot| slot.downcast_ref::<rillet::view::ViewSlot<");
    reveal_strlit(">>())
            .expect(\"view slot not seeded at spawn\")
    }

    /// Returns the latest published view without taking any lock.
    pub fn view(&self) -> rillet::runtime::Arc<");
    reveal_strlit("> {
        self.__rillet_slot().load()
    }

");
    let a = "impl "@;
    let b = " {
    #[doc(hidden)]
    fn __rillet_slot(&self) -> &rillet::view::ViewSlot<"@;
    let c = "> {
        self.__rillet_view
            .as_ref()
            .and_then(|slot| slot.downcast_ref::<rillet::view::ViewSlot<"@;
    let d = ">>())
            .expect(\"view slot not seeded at spawn\")
    }

    /// Returns the latest published view without taking any lock.
    pub fn view(&self) -> rillet::runtime::Arc<"@;
    let e = "> {
        self.__rillet_slot().load()
    }

"@;
    assert(VIEW_IMPLS@.subrange(837, 1279) =~= a
        + crate::text::hole(1)
        + b
        + crate::text::hole(2)
        + c
        + crate::text::hole(2)
        + d
        + crate::text::hole(2)
        + e);
    crate::text::lemma_reads4(VIEW_IMPLS@, 837, a, 1, b, 2, c, 2, d, 2, e, args);
    reveal_strlit("    /// Returns a watcher that has already seen the current view.
    pub fn watch_view(&self) -> rillet::view::ViewWatcher<");
    reveal_strlit("> {
        self.__rillet_slot().watch()
    }

    /// Blocks the thread until a published view meets the condition, or
    /// returns `None` once the service is cancelled.
    pub fn wait_view(
        &self,
        condition: impl FnMut(&");
    reveal_strlit(") -> bool,
    ) -> Option<rillet::runtime::Arc<");
    reveal_strlit(">> {
        rillet::runtime::wait_view(self.watch_view(), &self.__rillet_cancel, condition)
    }
}

/// A read-only handle to the service: its view and its events.
///
/// It exposes no commands, getters, or direct methods, and takes no
/// locks.
");
    let a = "    /// Returns a watcher that has already seen the current view.
    pub fn watch_view(&self) -> rillet::view::ViewWatcher<"@;
    let b = "> {
        self.__rillet_slot().watch()
    }

    /// Blocks the thread until a published view meets the condition, or
    /// returns `None` once the service is cancelled.
    pub fn wait_view(
        &self,
        condition: impl FnMut(&"@;
    let c = ") -> bool,
    ) -> Option<rillet::runtime::Arc<"@;
    let d = ">> {
        rillet::runtime::wait_view(self.watch_view(), &self.__rillet_cancel, condition)
    }
}

/// A read-only handle to the service: its view and its events.
///
/// It exposes no commands, getters, or direct methods, and takes no
/// locks.
"@;
    assert(VIEW_IMPLS@.subrange(1279, 1950) =~= a
        + crate::text::hole(2)
        + b
        + crate::text::hole(2)
        + c
        + crate::text::hole(2)
        + d);
    crate::text::lemma_reads3(VIEW_IMPLS@, 1279, a, 2, b, 2, c, 2, d, args);
    reveal_strlit("#[derive(Clone)]
pub struct ");
    reveal_strlit(" {
    inner: ");
    reveal_strlit(",
}

impl From<");
    reveal_strlit("> for ");
    reveal_strlit(" {
    fn from(handle: ");
    reveal_strlit(") -> Self {
        Self { inner: handle }
    }
}

");
    let a = "#[derive(Clone)]
pub struct "@;
    let b = " {
    inner: "@;
    let c = ",
}

impl From<"@;
    let d = "> for "@;
    let e = " {
    fn from(handle: "@;
    let f = ") -> Self {
        Self { inner: handle }
    }
}

"@;
    assert(VIEW_IMPLS@.subrange(1950, 2098) =~= a
        + crate::text::hole(3)
        + b
        + crate::text::hole(1)
        + c
        + crate::text::hole(1)
        + d
        + crate::text::hole(3)
        + e
        + crate::text::hole(1)
        + f);
    crate::text::lemma_reads5(VIEW_IMPLS@, 1950, a, 3, b, 1, c, 1, d, 3, e, 1, f, args);
    reveal_strlit(" {
    /// Returns the latest published view without taking any lock.
    pub fn view(&self) -> rillet::runtime::Arc<");
    reveal_strlit("> {
        self.inner.view()
    }

    /// Returns a watcher that has already seen the current view.
    pub fn watch_view(&self) -> rillet::view::ViewWatcher<");
    reveal_strlit("> {
        self.inner.watch_view()
    }

");
    let a = "impl "@;
    let b = " {
    /// Returns the latest published view without taking any lock.
    pub fn view(&self) -> rillet::runtime::Arc<"@;
    let c = "> {
        self.inner.view()
    }

    /// Returns a watcher that has already seen the current view.
    pub fn watch_view(&self) -> rillet::view::ViewWatcher<"@;
    let d = "> {
        self.inner.watch_view()
    }

"@;
    assert(VIEW_IMPLS@.subrange(2098, 2430) =~= a
        + crate::text::hole(3)
        + b
        + crate::text::hole(2)
        + c
        + crate::text::hole(2)
        + d);
    crate::text::lemma_reads3(VIEW_IMPLS@, 2098, a, 3, b, 2, c, 2, d, args);
    reveal_strlit("        self.inner.watch_view()
    }

    ");
    reveal_strlit("
    ");
    reveal_strlit("
}
");
    let a = "        self.inner.watch_view()
    }

    "@;
    let b = "
    "@;
    let c = "
}
"@;
    assert(VIEW_IMPLS@.subrange(2391, 2446) =~= a
        + crate::text::hole(4)
        + b
        + crate::text::hole(5)
        + c);
    crate::text::lemma_reads2(VIEW_IMPLS@, 2391, a, 4, b, 5, c, args);
}

/// What the text of `VIEW_SUBSCRIBE` says, whatever fills it.
proof fn lemma_text_view_subscribe(args: Seq<Seq<char>>)
    requires
        args.len() >= 2,
    ensures
        crate::text::filled(VIEW_SUBSCRIBE@, args) == "/// Subscribe to this event type.
pub fn "@
            + args[0]
            + "(&self) -> rillet::event::EventReceiver<"@
            + args[1]
            + "> {
    self.inner."@
            + args[0]
            + "()
}
"@,
{
    reveal_strlit("/// Subscribe to this event type.
pub fn $0(&self) -> rillet::event::EventReceiver<$1> {
    self.inner.$0()
}
");
    reveal_strlit("/// Subscribe to this event type.
pub fn ");
    reveal_strlit("(&self) -> rillet::event::EventReceiver<");
    reveal_strlit("> {
    self.inner.");
    reveal_strlit("()
}
");
    let a = "/// Subscribe to this event type.
pub fn "@;
    let b = "(&self) -> rillet::event::EventReceiver<"@;
    let c = "> {
    self.inner."@;
    let d = "()
}
"@;
    assert(VIEW_SUBSCRIBE@ =~= a
        + crate::text::hole(0)
        + b
        + crate::text::hole(1)
        + c
        + crate::text::hole(0)
        + d);
    crate::text::lemma_fills3(a, 0, b, 1, c, 0, d, args);
}

/// What the text of `VIEW_SAMPLER` says, whatever fills it.
proof fn lemma_text_view_sampler(args: Seq<Seq<char>>)
    requires
        args.len() >= 2,
    ensures
        crate::text::filled(VIEW_SAMPLER@, args) == "/// Samples the gauge without taking any lock.
pub fn "@
            + args[0]
            + "(&self) -> <"@
            + args[1]
            + " as rillet::gauge::GaugeCell>::Value {
    self.inner."@
            + args[0]
            + "()
}
"@,
{
    reveal_strlit("/// Samples the gauge without taking any lock.
pub fn $0(&self) -> <$1 as rillet::gauge::GaugeCell>::Value {
    self.inner.$0()
}
");
    reveal_strlit("/// Samples the gauge without taking any lock.
pub fn ");
    reveal_strlit("(&self) -> <");
    reveal_strlit(" as rillet::gauge::GaugeCell>::Value {
    self.inner.");
    reveal_strlit("()
}
");
    let a = "/// Samples the gauge without taking any lock.
pub fn "@;
    let b = "(&self) -> <"@;
    let c = " as rillet::gauge::GaugeCell>::Value {
    self.inner."@;
    let d = "()
}
"@;
    assert(VIEW_SAMPLER@ =~= a
        + crate::text::hole(0)
        + b
        + crate::text::hole(1)
        + c
        + crate::text::hole(0)
        + d);
    crate::text::lemma_fills3(a, 0, b, 1, c, 0, d, args);
}

/// What the text of `VIEW_SLOT_FIELD` says, whatever fills it.
proof fn lemma_text_view_slot_field(args: Seq<Seq<char>>)
    requires
        args.len() >= 1,
    ensures
        crate::text::filled(VIEW_SLOT_FIELD@, args) == "#[doc(hidden)]
__rillet_view_slot: Option<rillet::view::ViewSlot<"@
            + args[0]
            + ">>,
"@,
{
    reveal_strlit("#[doc(hidden)]
__rillet_view_slot: Option<rillet::view::ViewSlot<$0>>,
");
    reveal_strlit("#[doc(hidden)]
__rillet_view_slot: Option<rillet::view::ViewSlot<");
    reveal_strlit(">>,
");
    let a = "#[doc(hidden)]
__rillet_view_slot: Option<rillet::view::ViewSlot<"@;
    let b = ">>,
"@;
    assert(VIEW_SLOT_FIELD@ =~= a + crate::text::hole(0) + b);
    crate::text::lemma_fills1(a, 0, b, args);
}

/// What the text of `STRUCT` says, whatever fills it.
proof fn lemma_text_struct(args: Seq<Seq<char>>)
    requires
        args.len() >= 6,
    ensures
        crate::text::filled(STRUCT@, args) == args[0]
            + args[1]
            + " struct "@
            + args[2]
            + " "@
            + args[3]
            + " "@
            + args[4]
            + " {
    "@
            + args[5]
            + "
}
"@,
{
    reveal_strlit("$0$1 struct $2 $3 $4 {
    $5
}
");
    reveal_strlit(" struct ");
    reveal_strlit(" ");
    reveal_strlit(" {
    ");
    reveal_strlit("
}
");
    let a = Seq::<char>::empty();
    let b = Seq::<char>::empty();
    let c = " struct "@;
    let d = " "@;
    let e = " "@;
    let f = " {
    "@;
    let g = "
}
"@;
    assert(STRUCT@ =~= a
        + crate::text::hole(0)
        + b
        + crate::text::hole(1)
        + c
        + crate::text::hole(2)
        + d
        + crate::text::hole(3)
        + e
        + crate::text::hole(4)
        + f
        + crate::text::hole(5)
        + g);
    crate::text::lemma_fills6(a, 0, b, 1, c, 2, d, 3, e, 4, f, 5, g, args);
    let part = args[0] + args[1] + " struct "@ + args[2] + " "@ + args[3] + " "@ + args[4] + " {
    "@ + args[5] + "
}
"@;
    assert(crate::text::filled(STRUCT@, args) =~= part);
}

/// What the text of `FIELD` says, whatever fills it.
proof fn lemma_text_field(args: Seq<Seq<char>>)
    requires
        args.len() >= 4,
    ensures
        crate::text::filled(FIELD@, args) == args[0]
            + args[1]
            + " "@
            + args[2]
            + ": "@
            + args[3]
            + ",
"@,
{
    reveal_strlit("$0$1 $2: $3,
");
    reveal_strlit(" ");
    reveal_strlit(": ");
    reveal_strlit(",
");
    let a = Seq::<char>::empty();
    let b = Seq::<char>::empty();
    let c = " "@;
    let d = ": "@;
    let e = ",
"@;
    assert(FIELD@ =~= a
        + crate::text::hole(0)
        + b
        + crate::text::hole(1)
        + c
        + crate::text::hole(2)
        + d
        + crate::text::hole(3)
        + e);
    crate::text::lemma_fills4(a, 0, b, 1, c, 2, d, 3, e, args);
    assert(crate::text::filled(FIELD@, args) =~= args[0]
        + args[1]
        + " "@
        + args[2]
        + ": "@
        + args[3]
        + ",
"@);
}

} // verus!
