//! The `#[rillet::service]` attribute macro.
//!
//! On a struct it:
//! - adds an emitter field for services that emit events
//! - adds a view slot for services that publish a view
//! - writes getters, gauge samplers, subscription methods, and
//!   `emit_<event>()` methods
//! - writes the view handle type for view-publishing services

use crate::macros::case::{fragment_of, to_snake_case};
use crate::macros::commands::{IMPL, render_usize};
use crate::macros::fields::{
    FieldDefault, FieldDefaultView, GAUGE, GET, ServiceArgs, ServiceArgsView, parse_default,
    parse_flag, parse_service_args, parse_struct_attrs,
};
use crate::macros::handlers::{HANDLE_NAME, render_outer_attr, subscription_name};
use crate::macros::spawn::{EMPTY, EventHandlerView};
use crate::macros::syntax::{
    FieldParts, FieldPartsView, InputParts, InputPartsView, Shape, parse_fields, parse_input,
};
use crate::text::{each, fill1, fill2, fill3, fill4, fill5, fill6};
use vstd::prelude::*;

verus! {

pub const EXPECTED_NAMED_FIELDS: &'static str =
    "rillet::service can only be applied to structs with named fields";

pub const EXPECTED_STRUCT: &'static str = "rillet::service can only be applied to structs";

/// A field of a service and its roles.
pub struct ServiceField {
    /// Its attributes without the macros', each with a space behind it.
    pub attrs: String,
    pub vis: String,
    pub name: String,
    pub ty: String,
    /// Whether the handle gets a method that clones it.
    pub getter: bool,
    pub default: FieldDefault,
    /// Whether the handle gets a method that samples it.
    pub gauge: bool,
}

/// A field of a service, as mathematics.
pub struct ServiceFieldView {
    pub attrs: Seq<char>,
    pub vis: Seq<char>,
    pub name: Seq<char>,
    pub ty: Seq<char>,
    pub getter: bool,
    pub default: FieldDefaultView,
    pub gauge: bool,
}

impl View for ServiceField {
    type V = ServiceFieldView;

    open spec fn view(&self) -> ServiceFieldView {
        ServiceFieldView {
            attrs: self.attrs@,
            vis: self.vis@,
            name: self.name@,
            ty: self.ty@,
            getter: self.getter,
            default: self.default@,
            gauge: self.gauge,
        }
    }
}

/// For each of the first `n` fields whether its attributes hold the given
/// bare keyword.
pub open spec fn flags(fields: Seq<FieldPartsView>, keyword: Seq<char>, n: nat) -> Result<
    Seq<bool>,
    Seq<char>,
>
    decreases n,
{
    if n == 0 {
        Ok(seq![])
    } else {
        match flags(fields, keyword, (n - 1) as nat) {
            Err(message) => Err(message),
            Ok(before) => match crate::macros::fields::field_flag(fields[n - 1], keyword) {
                Err(message) => Err(message),
                Ok(flag) => Ok(before.push(flag)),
            },
        }
    }
}

/// For each of the first `n` fields the default its attributes name.
pub open spec fn defaults(fields: Seq<FieldPartsView>, n: nat) -> Result<
    Seq<FieldDefaultView>,
    Seq<char>,
>
    decreases n,
{
    if n == 0 {
        Ok(seq![])
    } else {
        match defaults(fields, (n - 1) as nat) {
            Err(message) => Err(message),
            Ok(before) => match crate::macros::fields::field_default(fields[n - 1]) {
                Err(message) => Err(message),
                Ok(default) => Ok(before.push(default)),
            },
        }
    }
}

/// A field with its roles.
pub open spec fn service_field(
    field: FieldPartsView,
    getter: bool,
    default: FieldDefaultView,
    gauge: bool,
) -> ServiceFieldView {
    ServiceFieldView {
        attrs: crate::text::concat(
            field.attrs.map_values(|attr: Seq<char>| crate::macros::handlers::outer_attr(attr)),
        ),
        vis: field.vis,
        name: field.name,
        ty: field.ty,
        getter,
        default,
        gauge,
    }
}

/// The fields with their roles: the getters are read first, then the
/// defaults, then the gauges.
pub open spec fn service_fields(fields: Seq<FieldPartsView>) -> Result<
    Seq<ServiceFieldView>,
    Seq<char>,
> {
    match flags(fields, GET@, fields.len()) {
        Err(message) => Err(message),
        Ok(getters) => match defaults(fields, fields.len()) {
            Err(message) => Err(message),
            Ok(defaults) => match flags(fields, GAUGE@, fields.len()) {
                Err(message) => Err(message),
                Ok(gauges) => Ok(
                    Seq::new(
                        fields.len(),
                        |i: int| service_field(fields[i], getters[i], defaults[i], gauges[i]),
                    ),
                ),
            },
        },
    }
}

proof fn lemma_flags(fields: Seq<FieldPartsView>, keyword: Seq<char>, n: nat, m: nat)
    requires
        n <= m,
    ensures
        flags(fields, keyword, n) is Err ==> flags(fields, keyword, m) == flags(
            fields,
            keyword,
            n,
        ),
        flags(fields, keyword, n) matches Ok(found) ==> found.len() == n,
    decreases m,
{
    if n < m {
        lemma_flags(fields, keyword, n, (m - 1) as nat);
    } else if n > 0 {
        lemma_flags(fields, keyword, (n - 1) as nat, (n - 1) as nat);
    }
}

proof fn lemma_defaults(fields: Seq<FieldPartsView>, n: nat, m: nat)
    requires
        n <= m,
    ensures
        defaults(fields, n) is Err ==> defaults(fields, m) == defaults(fields, n),
        defaults(fields, n) matches Ok(found) ==> found.len() == n,
    decreases m,
{
    if n < m {
        lemma_defaults(fields, n, (m - 1) as nat);
    } else if n > 0 {
        lemma_defaults(fields, (n - 1) as nat, (n - 1) as nat);
    }
}

fn collect_flags(fields: &Vec<FieldParts>, keyword: &str) -> (result: Result<Vec<bool>, String>)
    ensures
        match result {
            Ok(found) => flags(crate::text::views_of(fields@), keyword@, fields@.len()) == Ok::<
                _,
                Seq<char>,
            >(found@) && found.len() == fields.len(),
            Err(message) => flags(crate::text::views_of(fields@), keyword@, fields@.len())
                == Err::<Seq<bool>, _>(message@),
        },
{
    let ghost views = crate::text::views_of(fields@);
    let mut found: Vec<bool> = Vec::new();
    assert(found@ =~= seq![]);
    for i in 0..fields.len()
        invariant
            views == crate::text::views_of(fields@),
            found.len() == i,
            flags(views, keyword@, i as nat) == Ok::<_, Seq<char>>(found@),
    {
        assert(views[i as int] == fields@[i as int]@);
        match parse_flag(&fields[i], keyword) {
            Ok(flag) => {
                found.push(flag);
            },
            Err(message) => {
                proof {
                    lemma_flags(views, keyword@, (i + 1) as nat, views.len());
                }
                return Err(message);
            },
        }
    }
    Ok(found)
}

fn collect_defaults(fields: &Vec<FieldParts>) -> (result: Result<Vec<FieldDefault>, String>)
    ensures
        match result {
            Ok(found) => defaults(crate::text::views_of(fields@), fields@.len()) == Ok::<
                _,
                Seq<char>,
            >(crate::text::views_of(found@)) && found.len() == fields.len(),
            Err(message) => defaults(crate::text::views_of(fields@), fields@.len()) == Err::<
                Seq<FieldDefaultView>,
                _,
            >(message@),
        },
{
    let ghost views = crate::text::views_of(fields@);
    let mut found: Vec<FieldDefault> = Vec::new();
    assert(crate::text::views_of(found@) =~= seq![]);
    for i in 0..fields.len()
        invariant
            views == crate::text::views_of(fields@),
            found.len() == i,
            defaults(views, i as nat) == Ok::<_, Seq<char>>(crate::text::views_of(found@)),
    {
        assert(views[i as int] == fields@[i as int]@);
        match parse_default(&fields[i]) {
            Ok(default) => {
                let ghost before = crate::text::views_of(found@);
                found.push(default);
                assert(crate::text::views_of(found@) =~= before.push(default@));
            },
            Err(message) => {
                proof {
                    lemma_defaults(views, (i + 1) as nat, views.len());
                }
                return Err(message);
            },
        }
    }
    Ok(found)
}

fn make_field(field: &FieldParts, getter: bool, default: FieldDefault, gauge: bool) -> (made:
    ServiceField)
    ensures
        made@ == service_field(field@, getter, default@, gauge),
{
    let attrs = each(
        &field.attrs,
        render_outer_attr,
        Ghost(|attr: Seq<char>| crate::macros::handlers::outer_attr(attr)),
    );
    ServiceField {
        attrs,
        vis: field.vis.clone(),
        name: field.name.clone(),
        ty: field.ty.clone(),
        getter,
        default,
        gauge,
    }
}

/// Reads the roles of fields.
pub fn collect_fields(fields: &Vec<FieldParts>) -> (result: Result<Vec<ServiceField>, String>)
    ensures
        match result {
            Ok(made) => service_fields(crate::text::views_of(fields@)) == Ok::<_, Seq<char>>(
                crate::text::views_of(made@),
            ),
            Err(message) => service_fields(crate::text::views_of(fields@)) == Err::<
                Seq<ServiceFieldView>,
                _,
            >(message@),
        },
{
    let getters = match collect_flags(fields, GET) {
        Ok(getters) => getters,
        Err(message) => {
            return Err(message);
        },
    };
    let defaults = match collect_defaults(fields) {
        Ok(defaults) => defaults,
        Err(message) => {
            return Err(message);
        },
    };
    let gauges = match collect_flags(fields, GAUGE) {
        Ok(gauges) => gauges,
        Err(message) => {
            return Err(message);
        },
    };
    let ghost default_views = crate::text::views_of(defaults@);
    let mut made: Vec<ServiceField> = Vec::new();
    for default in iter: defaults
        invariant
            iter.seq() == defaults@,
            getters.len() == fields.len(),
            defaults@.len() == fields.len(),
            gauges.len() == fields.len(),
            default_views == crate::text::views_of(defaults@),
            made.len() == iter.index(),
            forall|j: int|
                0 <= j < made.len() ==> (#[trigger] made@[j])@ == service_field(
                    fields@[j]@,
                    getters@[j],
                    default_views[j],
                    gauges@[j],
                ),
    {
        let i = made.len();
        made.push(make_field(&fields[i], getters[i], default, gauges[i]));
    }
    assert(crate::text::views_of(made@) =~= Seq::new(
        fields@.len(),
        |i: int|
            service_field(
                crate::text::views_of(fields@)[i],
                getters@[i],
                default_views[i],
                gauges@[i],
            ),
    ));
    Ok(made)
}

pub const FIELD: &'static str = "$0$1 $2: $3,
";

pub const EMITTER_FIELD: &'static str = "#[doc(hidden)]
__rillet_emitter: rillet::event::Emitter,
";

/// The slot is seeded at spawn, once the initial state exists to compute a
/// view from.
pub const VIEW_SLOT_FIELD: &'static str = "#[doc(hidden)]
__rillet_view_slot: Option<rillet::view::ViewSlot<$0>>,
";

pub const CANCEL_TOKEN_FIELD: &'static str = "#[doc(hidden)]
__rillet_cancel_token: rillet::runtime::CancellationToken,
";

pub const TASKS_FIELD: &'static str = "#[doc(hidden)]
__rillet_tasks: rillet::runtime::Arc<rillet::runtime::TaskSet>,
";

pub const SAMPLING_STATE_FIELD: &'static str = "#[doc(hidden)]
__rillet_sampling_state: rillet::metrics::SamplingState,
";

pub const OPS_FIELD: &'static str = "#[doc(hidden)]
__rillet_ops: rillet::op::OpsCell,
";

pub const STRUCT: &'static str = "$0$1 struct $2 $3 $4 {
    $5
}
";

pub const GETTER: &'static str = "pub fn $0(&self) -> $1 {
    self.state.read().unwrap().$0.clone()
}
";

pub const SUBSCRIBE: &'static str = "/// Returns a receiver for all future events of this type.
pub fn $0(&self) -> rillet::event::EventReceiver<$1> {
    rillet::event::EventReceiver::new(
        self.state.read().unwrap().__rillet_emitter.subscribe::<$1>()
    )
}
";

pub const HANDLE_EMIT: &'static str = "/// Emits the event to all subscribers.
pub fn emit_$0(&self, event: $1) {
    self.state.read().unwrap().__rillet_emitter.emit(event);
}
";

pub const EVENT_STATS: &'static str =
    "/// Returns the total number of events published for this event type.
pub fn $0_published(&self) -> u64 {
    self.state.read().unwrap().__rillet_emitter.published::<$1>()
}

/// Returns the current number of subscribers for this event type.
pub fn $0_subscriber_count(&self) -> usize {
    self.state.read().unwrap().__rillet_emitter.subscriber_count::<$1>()
}
";

pub const CONSTRUCTOR_PARAM: &'static str = "$0: $1, ";

pub const INIT_ARGUMENT: &'static str = "$0,
";

pub const INIT_DEFAULT: &'static str = "$0: Default::default(),
";

pub const INIT_GIVEN: &'static str = "$0: $1,
";

pub const INIT_EMITTER: &'static str = "__rillet_emitter: rillet::event::Emitter::new(),
";

pub const INIT_VIEW: &'static str = "__rillet_view_slot: None,
";

pub const CONSTRUCTOR: &'static str = "impl $0 {
    /// Creates a new instance of this service.
    #[allow(clippy::too_many_arguments)]
    pub fn new($1) -> Self {
        Self {
            $2
            $3
            $4
            __rillet_cancel_token: rillet::runtime::CancellationToken::new(),
            __rillet_tasks: rillet::runtime::Arc::new(rillet::runtime::TaskSet::new()),
            __rillet_sampling_state: rillet::metrics::SamplingState::new(),
            __rillet_ops: rillet::op::OpsCell::new(),
        }
    }

    /// Signals cancellation to the service loop and its tasks.
    ///
    /// The returned completion waits for them to finish.
    pub fn cancel(&self) -> rillet::runtime::TaskCompletion {
        self.__rillet_cancel_token.cancel();
        rillet::runtime::TaskCompletion::new(self.__rillet_tasks.clone())
    }
}
";

pub const NO_EMITTER: &'static str = "impl $0 {
    #[doc(hidden)]
    pub fn __rillet_wire_emitter(&mut self) {}
}
";

pub const EMIT: &'static str = "/// Emits the event to all subscribers.
fn emit_$0(&self, event: $1) {
    self.__rillet_emitter.emit(event);
}
";

pub const ADD_EVENT: &'static str = "builder.add_event::<$0>($1);
";

pub const WIRE_EMITTER: &'static str = "impl $0 {
    $1

    /// Creates the event channels. Called by the spawn methods.
    #[doc(hidden)]
    pub fn __rillet_wire_emitter(&mut self) {
        let mut builder = rillet::event::EmitterBuilder::new();
        $2
        self.__rillet_emitter = builder.build();
    }
}
";

pub const OBSERVED_EVENT: &'static str =
    "self.__rillet_emitter.subscriber_count::<$0>() > 0 || ";

pub const OBSERVED_VIEW: &'static str =
    "self.__rillet_view_slot.as_ref().is_some_and(|slot| slot.watcher_count() > 0) || ";

pub const HAS_OBSERVERS: &'static str = "impl $0 {
    /// Whether anyone subscribes to an event or watches the view.
    #[doc(hidden)]
    pub fn __rillet_has_observers(&self) -> bool {
        $1 $2 false
    }
}
";

pub const CAPACITY: &'static str = "impl $0 {
    #[doc(hidden)]
    pub const __RILLET_COMMAND_CAPACITY: usize = $1;
}
";

pub const SHUTDOWN: &'static str = "impl $0 {
    /// Returns the service's cancellation token.
    pub fn cancel_token(&self) -> rillet::runtime::CancellationToken {
        self.__rillet_cancel.clone()
    }

    /// Signals cancellation to the service loop and its tasks.
    ///
    /// The returned completion waits for them to finish.
    pub fn cancel(&self) -> rillet::runtime::TaskCompletion {
        self.__rillet_cancel.cancel();
        self.task_completion()
    }

    /// Returns a completion for the service's tasks without
    /// cancelling them.
    pub fn task_completion(&self) -> rillet::runtime::TaskCompletion {
        rillet::runtime::TaskCompletion::new(self.__rillet_tasks.clone())
    }
}
";

pub const NO_VIEW: &'static str = "impl $0 {
    #[doc(hidden)]
    pub fn __rillet_seed_view(&mut self) {}

    #[doc(hidden)]
    pub fn __rillet_view_slot_any(
        &self,
    ) -> Option<rillet::runtime::Arc<dyn std::any::Any + Send + Sync>> {
        None
    }

    #[doc(hidden)]
    pub fn __rillet_publish_view(&self) {}
}
";

pub const VIEW_HANDLE_NAME: &'static str = "$0ViewHandle";

pub const VIEW_SUBSCRIBE: &'static str = "/// Subscribe to this event type.
pub fn $0(&self) -> rillet::event::EventReceiver<$1> {
    self.inner.$0()
}
";

pub const VIEW_IMPLS: &'static str = "impl $0 {
    /// Seeds the view slot from the initial state.
    #[doc(hidden)]
    pub fn __rillet_seed_view(&mut self) {
        self.__rillet_view_slot = Some(rillet::view::ViewSlot::new(self.view()));
    }

    #[doc(hidden)]
    pub fn __rillet_view_slot_any(
        &self,
    ) -> Option<rillet::runtime::Arc<dyn std::any::Any + Send + Sync>> {
        self.__rillet_view_slot.as_ref().map(|slot| {
            rillet::runtime::Arc::new(slot.clone())
                as rillet::runtime::Arc<dyn std::any::Any + Send + Sync>
        })
    }

    /// Recomputes the view and publishes it if it changed.
    ///
    /// Callers hold the state write lock.
    #[doc(hidden)]
    pub fn __rillet_publish_view(&self) {
        if let Some(slot) = &self.__rillet_view_slot {
            slot.publish(self.view());
        }
    }
}

impl $1 {
    #[doc(hidden)]
    fn __rillet_slot(&self) -> &rillet::view::ViewSlot<$2> {
        self.__rillet_view
            .as_ref()
            .and_then(|slot| slot.downcast_ref::<rillet::view::ViewSlot<$2>>())
            .expect(\"view slot not seeded at spawn\")
    }

    /// Returns the latest published view without taking any lock.
    pub fn view(&self) -> rillet::runtime::Arc<$2> {
        self.__rillet_slot().load()
    }

    /// Returns a watcher that has already seen the current view.
    pub fn watch_view(&self) -> rillet::view::ViewWatcher<$2> {
        self.__rillet_slot().watch()
    }

    /// Blocks the thread until a published view meets the condition, or
    /// returns `None` once the service is cancelled.
    pub fn wait_view(
        &self,
        condition: impl FnMut(&$2) -> bool,
    ) -> Option<rillet::runtime::Arc<$2>> {
        rillet::runtime::wait_view(self.watch_view(), &self.__rillet_cancel, condition)
    }
}

/// A read-only handle to the service: its view and its events.
///
/// It exposes no commands, getters, or direct methods, and takes no
/// locks.
#[derive(Clone)]
pub struct $3 {
    inner: $1,
}

impl From<$1> for $3 {
    fn from(handle: $1) -> Self {
        Self { inner: handle }
    }
}

impl $3 {
    /// Returns the latest published view without taking any lock.
    pub fn view(&self) -> rillet::runtime::Arc<$2> {
        self.inner.view()
    }

    /// Returns a watcher that has already seen the current view.
    pub fn watch_view(&self) -> rillet::view::ViewWatcher<$2> {
        self.inner.watch_view()
    }

    $4
    $5
}
";

pub const GAUGE_FIELD: &'static str = "$0: $1,
";

pub const GAUGE_CLONE: &'static str = "$0: self.$0.clone(),
";

pub const SAMPLER: &'static str = "/// Samples the gauge without touching the service's state lock.
pub fn $0(&self) -> <$1 as rillet::gauge::GaugeCell>::Value {
    rillet::gauge::GaugeCell::load(&self.__rillet_gauges.$0)
}
";

pub const VIEW_SAMPLER: &'static str = "/// Samples the gauge without taking any lock.
pub fn $0(&self) -> <$1 as rillet::gauge::GaugeCell>::Value {
    self.inner.$0()
}
";

pub const GAUGES: &'static str = "#[doc(hidden)]
#[derive(Clone)]
pub struct __$0Gauges {
    $1
}

impl $2 {
    #[doc(hidden)]
    pub fn __rillet_gauges(&self) -> __$0Gauges {
        __$0Gauges {
            $3
        }
    }
}

impl $4 {
    $5
}
";

/// The snake-case form of an event type's name.
pub open spec fn event_name(event: Seq<char>) -> Seq<char> {
    crate::macros::case::snake_case(crate::macros::case::spelling(event))
}

/// A template filled with an event's snake-case name and its type.
pub open spec fn per_event(template: Seq<char>, event: Seq<char>) -> Seq<char> {
    crate::text::filled(template, seq![event_name(event), event])
}

/// A template filled for each event.
pub open spec fn for_events(template: Seq<char>, events: Seq<Seq<char>>) -> Seq<char> {
    crate::text::concat(events.map_values(|event: Seq<char>| per_event(template, event)))
}

fn render_for_events(template: &str, events: &Vec<String>) -> (text: String)
    ensures
        text@ == for_events(template@, crate::text::views_of(events@)),
{
    let one = |event: &String| -> (text: String)
        ensures
            text@ == per_event(template@, event@),
        { fill2(template, to_snake_case(event.as_str()).as_str(), event.as_str()) };
    each(events, one, Ghost(|event: Seq<char>| per_event(template@, event)))
}

/// A template filled with the method that subscribes to an event and with
/// the event's type.
pub open spec fn per_subscription(template: Seq<char>, event: Seq<char>) -> Seq<char> {
    crate::text::filled(template, seq![crate::macros::handlers::subscription_of(event), event])
}

/// A template filled with each event's subscription.
pub open spec fn for_subscriptions(template: Seq<char>, events: Seq<Seq<char>>) -> Seq<char> {
    crate::text::concat(events.map_values(|event: Seq<char>| per_subscription(template, event)))
}

fn render_for_subscriptions(template: &str, events: &Vec<String>) -> (text: String)
    ensures
        text@ == for_subscriptions(template@, crate::text::views_of(events@)),
{
    let one = |event: &String| -> (text: String)
        ensures
            text@ == per_subscription(template@, event@),
        { fill2(template, subscription_name(event.as_str()).as_str(), event.as_str()) };
    each(events, one, Ghost(|event: Seq<char>| per_subscription(template@, event)))
}

/// A template filled with a field's name and type, if the field is a gauge.
pub open spec fn per_gauge(template: Seq<char>, field: ServiceFieldView) -> Seq<char> {
    if field.gauge {
        crate::text::filled(template, seq![field.name, field.ty])
    } else {
        EMPTY@
    }
}

/// A template filled for each gauge.
pub open spec fn for_gauges(template: Seq<char>, fields: Seq<ServiceFieldView>) -> Seq<char> {
    crate::text::concat(fields.map_values(|field: ServiceFieldView| per_gauge(template, field)))
}

fn render_per_gauge(template: &str, field: &ServiceField) -> (text: String)
    ensures
        text@ == per_gauge(template@, field@),
{
    if field.gauge {
        fill2(template, field.name.as_str(), field.ty.as_str())
    } else {
        EMPTY.to_owned()
    }
}

fn render_for_gauges(template: &str, fields: &Vec<ServiceField>) -> (text: String)
    ensures
        text@ == for_gauges(template@, crate::text::views_of(fields@)),
{
    let one = |field: &ServiceField| -> (text: String)
        ensures
            text@ == per_gauge(template@, field@),
        { render_per_gauge(template, field) };
    each(fields, one, Ghost(|field: ServiceFieldView| per_gauge(template@, field)))
}

/// A field's declaration.
pub open spec fn field_decl(field: ServiceFieldView) -> Seq<char> {
    crate::text::filled(FIELD@, seq![field.attrs, field.vis, field.name, field.ty])
}

fn render_field_decl(field: &ServiceField) -> (text: String)
    ensures
        text@ == field_decl(field@),
{
    fill4(
        FIELD,
        field.attrs.as_str(),
        field.vis.as_str(),
        field.name.as_str(),
        field.ty.as_str(),
    )
}

/// The emitter field, for a service that emits events.
pub open spec fn emitter_field(events: Seq<Seq<char>>) -> Seq<char> {
    if events.len() > 0 {
        EMITTER_FIELD@
    } else {
        EMPTY@
    }
}

/// Adds the hidden emitter field.
pub fn inject_emitter_field(fields: &mut String, events: &Vec<String>)
    ensures
        final(fields)@ == old(fields)@ + emitter_field(crate::text::views_of(events@)),
{
    if events.len() > 0 {
        fields.append(EMITTER_FIELD);
    } else {
        fields.append(EMPTY);
    }
}

/// The view slot field, for a service that publishes a view.
pub open spec fn view_slot_field(view_type: Option<Seq<char>>) -> Seq<char> {
    match view_type {
        Some(ty) => crate::text::filled(VIEW_SLOT_FIELD@, seq![ty]),
        None => EMPTY@,
    }
}

/// Adds the hidden view slot field.
pub fn inject_view_slot_field(fields: &mut String, view_type: &Option<String>)
    ensures
        final(fields)@ == old(fields)@ + view_slot_field(
            crate::macros::syntax::optional(*view_type),
        ),
{
    match view_type {
        Some(ty) => {
            fields.append(fill1(VIEW_SLOT_FIELD, ty.as_str()).as_str());
        },
        None => {
            fields.append(EMPTY);
        },
    }
}

/// Adds the hidden cancellation token field.
pub fn inject_cancel_token_field(fields: &mut String)
    ensures
        final(fields)@ == old(fields)@ + CANCEL_TOKEN_FIELD@,
{
    fields.append(CANCEL_TOKEN_FIELD);
}

/// Adds the hidden field that tracks the completion of the tasks.
pub fn inject_tasks_field(fields: &mut String)
    ensures
        final(fields)@ == old(fields)@ + TASKS_FIELD@,
{
    fields.append(TASKS_FIELD);
}

/// Adds the hidden sampling state field for metrics.
pub fn inject_sampling_state_field(fields: &mut String)
    ensures
        final(fields)@ == old(fields)@ + SAMPLING_STATE_FIELD@,
{
    fields.append(SAMPLING_STATE_FIELD);
}

/// Adds the hidden field of deferred operations.
pub fn inject_ops_field(fields: &mut String)
    ensures
        final(fields)@ == old(fields)@ + OPS_FIELD@,
{
    fields.append(OPS_FIELD);
}

/// A service, as the code around it needs it.
pub struct Service {
    pub name: String,
    pub view_type: Option<String>,
    pub command_capacity: usize,
    pub event_capacity: usize,
    pub events: Vec<String>,
    pub fields: Vec<ServiceField>,
}

/// A service, as mathematics.
pub struct ServiceView {
    pub name: Seq<char>,
    pub view_type: Option<Seq<char>>,
    pub command_capacity: usize,
    pub event_capacity: usize,
    pub events: Seq<Seq<char>>,
    pub fields: Seq<ServiceFieldView>,
}

impl View for Service {
    type V = ServiceView;

    open spec fn view(&self) -> ServiceView {
        ServiceView {
            name: self.name@,
            view_type: crate::macros::syntax::optional(self.view_type),
            command_capacity: self.command_capacity,
            event_capacity: self.event_capacity,
            events: crate::text::views_of(self.events@),
            fields: crate::text::views_of(self.fields@),
        }
    }
}

/// The name of a service's handle.
pub open spec fn handle_name(service: Seq<char>) -> Seq<char> {
    crate::text::filled(HANDLE_NAME@, seq![crate::macros::case::fragment(service)])
}

fn render_handle_name(service: &str) -> (text: String)
    ensures
        text@ == handle_name(service@),
{
    fill1(HANDLE_NAME, fragment_of(service).as_str())
}

/// All fields of the struct, the hidden ones last.
pub open spec fn struct_fields(service: ServiceView) -> Seq<char> {
    crate::text::concat(service.fields.map_values(|f: ServiceFieldView| field_decl(f)))
        + emitter_field(service.events) + view_slot_field(service.view_type) + CANCEL_TOKEN_FIELD@
        + TASKS_FIELD@ + SAMPLING_STATE_FIELD@ + OPS_FIELD@
}

fn render_struct_fields(service: &Service) -> (text: String)
    ensures
        text@ == struct_fields(service@),
{
    let mut text = each(
        &service.fields,
        render_field_decl,
        Ghost(|f: ServiceFieldView| field_decl(f)),
    );
    inject_emitter_field(&mut text, &service.events);
    inject_view_slot_field(&mut text, &service.view_type);
    inject_cancel_token_field(&mut text);
    inject_tasks_field(&mut text);
    inject_sampling_state_field(&mut text);
    inject_ops_field(&mut text);
    text
}

/// The struct itself, without the macros' attributes.
pub open spec fn struct_text(input: InputPartsView, service: ServiceView) -> Seq<char> {
    crate::text::filled(
        STRUCT@,
        seq![
            crate::text::concat(
                input.attrs.map_values(
                    |attr: Seq<char>| crate::macros::handlers::outer_attr(attr),
                ),
            ),
            input.vis,
            input.name,
            input.generics,
            input.where_clause,
            struct_fields(service),
        ],
    )
}

fn render_struct(input: &InputParts, service: &Service) -> (text: String)
    ensures
        text@ == struct_text(input@, service@),
{
    let attrs = each(
        &input.attrs,
        render_outer_attr,
        Ghost(|attr: Seq<char>| crate::macros::handlers::outer_attr(attr)),
    );
    fill6(
        STRUCT,
        attrs.as_str(),
        input.vis.as_str(),
        input.name.as_str(),
        input.generics.as_str(),
        input.where_clause.as_str(),
        render_struct_fields(service).as_str(),
    )
}

/// A field's getter, if it has one.
pub open spec fn getter(field: ServiceFieldView) -> Seq<char> {
    if field.getter {
        crate::text::filled(GETTER@, seq![field.name, field.ty])
    } else {
        EMPTY@
    }
}

fn render_getter(field: &ServiceField) -> (text: String)
    ensures
        text@ == getter(field@),
{
    if field.getter {
        fill2(GETTER, field.name.as_str(), field.ty.as_str())
    } else {
        EMPTY.to_owned()
    }
}

/// Whether any field has a getter.
pub open spec fn has_getters(fields: Seq<ServiceFieldView>) -> bool {
    exists|i: int| 0 <= i < fields.len() && (#[trigger] fields[i]).getter
}

fn any_getters(fields: &Vec<ServiceField>) -> (found: bool)
    ensures
        found == has_getters(crate::text::views_of(fields@)),
{
    let ghost views = crate::text::views_of(fields@);
    for i in 0..fields.len()
        invariant
            views == crate::text::views_of(fields@),
            forall|j: int| 0 <= j < i ==> !(#[trigger] views[j]).getter,
    {
        assert(views[i as int] == fields@[i as int]@);
        if fields[i].getter {
            return true;
        }
    }
    false
}

/// The handle's getters.
pub open spec fn getters(handle: Seq<char>, fields: Seq<ServiceFieldView>) -> Seq<char> {
    if has_getters(fields) {
        crate::text::filled(
            IMPL@,
            seq![
                handle,
                crate::text::concat(fields.map_values(|f: ServiceFieldView| getter(f))),
            ],
        )
    } else {
        EMPTY@
    }
}

/// Writes the handle's getters.
pub fn generate_getters(handle: &str, fields: &Vec<ServiceField>) -> (text: String)
    ensures
        text@ == getters(handle@, crate::text::views_of(fields@)),
{
    if !any_getters(fields) {
        return EMPTY.to_owned();
    }
    let methods = each(fields, render_getter, Ghost(|f: ServiceFieldView| getter(f)));
    fill2(IMPL, handle, methods.as_str())
}

/// The handle's methods to subscribe, to emit and to count, if there are
/// events.
pub open spec fn subscription_methods(handle: Seq<char>, events: Seq<Seq<char>>) -> Seq<char> {
    if events.len() == 0 {
        EMPTY@
    } else {
        crate::text::filled(
            IMPL@,
            seq![
                handle,
                for_subscriptions(SUBSCRIBE@, events) + for_events(HANDLE_EMIT@, events) + for_events(
                    EVENT_STATS@,
                    events,
                ),
            ],
        )
    }
}

/// Writes the handle's methods to subscribe, to emit and to count.
pub fn generate_subscription_methods(handle: &str, events: &Vec<String>) -> (text: String)
    ensures
        text@ == subscription_methods(handle@, crate::text::views_of(events@)),
{
    if events.len() == 0 {
        return EMPTY.to_owned();
    }
    let mut methods = render_for_subscriptions(SUBSCRIBE, events);
    methods.append(render_for_events(HANDLE_EMIT, events).as_str());
    methods.append(render_for_events(EVENT_STATS, events).as_str());
    fill2(IMPL, handle, methods.as_str())
}

/// Whether a field starts out with an argument of the constructor.
pub open spec fn is_argument(field: ServiceFieldView) -> bool {
    field.default is Absent && !field.gauge
}

/// The constructor's parameter for a field, if it has one.
pub open spec fn constructor_param(field: ServiceFieldView) -> Seq<char> {
    if is_argument(field) {
        crate::text::filled(CONSTRUCTOR_PARAM@, seq![field.name, field.ty])
    } else {
        EMPTY@
    }
}

/// How the constructor initializes a field.
pub open spec fn field_init(field: ServiceFieldView) -> Seq<char> {
    match field.default {
        FieldDefaultView::Given { expr } => crate::text::filled(
            INIT_GIVEN@,
            seq![field.name, expr],
        ),
        FieldDefaultView::Trait => crate::text::filled(INIT_DEFAULT@, seq![field.name]),
        FieldDefaultView::Absent => if field.gauge {
            crate::text::filled(INIT_DEFAULT@, seq![field.name])
        } else {
            crate::text::filled(INIT_ARGUMENT@, seq![field.name])
        },
    }
}

fn render_constructor_param(field: &ServiceField) -> (text: String)
    ensures
        text@ == constructor_param(field@),
{
    match field.default {
        FieldDefault::Absent => if field.gauge {
            EMPTY.to_owned()
        } else {
            fill2(CONSTRUCTOR_PARAM, field.name.as_str(), field.ty.as_str())
        },
        _ => EMPTY.to_owned(),
    }
}

fn render_field_init(field: &ServiceField) -> (text: String)
    ensures
        text@ == field_init(field@),
{
    match &field.default {
        FieldDefault::Given { expr } => fill2(INIT_GIVEN, field.name.as_str(), expr.as_str()),
        FieldDefault::Trait => fill1(INIT_DEFAULT, field.name.as_str()),
        FieldDefault::Absent => if field.gauge {
            fill1(INIT_DEFAULT, field.name.as_str())
        } else {
            fill1(INIT_ARGUMENT, field.name.as_str())
        },
    }
}

/// The constructor, whose parameters are the fields without a default, and
/// the service's own `cancel`.
pub open spec fn constructor(service: ServiceView) -> Seq<char> {
    crate::text::filled(
        CONSTRUCTOR@,
        seq![
            service.name,
            crate::text::concat(
                service.fields.map_values(|f: ServiceFieldView| constructor_param(f)),
            ),
            crate::text::concat(service.fields.map_values(|f: ServiceFieldView| field_init(f))),
            if service.events.len() > 0 {
                INIT_EMITTER@
            } else {
                EMPTY@
            },
            if service.view_type is Some {
                INIT_VIEW@
            } else {
                EMPTY@
            },
        ],
    )
}

/// Writes the constructor and the service's own `cancel`.
pub fn generate_constructor(service: &Service) -> (text: String)
    ensures
        text@ == constructor(service@),
{
    let params = each(
        &service.fields,
        render_constructor_param,
        Ghost(|f: ServiceFieldView| constructor_param(f)),
    );
    let inits = each(
        &service.fields,
        render_field_init,
        Ghost(|f: ServiceFieldView| field_init(f)),
    );
    fill5(
        CONSTRUCTOR,
        service.name.as_str(),
        params.as_str(),
        inits.as_str(),
        if service.events.len() > 0 {
            INIT_EMITTER
        } else {
            EMPTY
        },
        if service.view_type.is_some() {
            INIT_VIEW
        } else {
            EMPTY
        },
    )
}

/// The call that adds an event's channel.
pub open spec fn add_event(capacity: usize, event: Seq<char>) -> Seq<char> {
    crate::text::filled(
        ADD_EVENT@,
        seq![event, crate::macros::commands::usize_literal(capacity as nat)],
    )
}

fn render_add_event(capacity: usize, event: &String) -> (text: String)
    ensures
        text@ == add_event(capacity, event@),
{
    fill2(ADD_EVENT, event.as_str(), render_usize(capacity).as_str())
}

/// The service's methods to emit, and the one that creates the event
/// channels, which does nothing without events.
pub open spec fn emit_methods(name: Seq<char>, events: Seq<Seq<char>>, capacity: usize) -> Seq<
    char,
> {
    if events.len() == 0 {
        crate::text::filled(NO_EMITTER@, seq![name])
    } else {
        crate::text::filled(
            WIRE_EMITTER@,
            seq![
                name,
                for_events(EMIT@, events),
                crate::text::concat(
                    events.map_values(|event: Seq<char>| add_event(capacity, event)),
                ),
            ],
        )
    }
}

/// Writes the service's methods to emit and the one that creates the event
/// channels.
pub fn generate_emit_methods(name: &str, events: &Vec<String>, capacity: usize) -> (text: String)
    ensures
        text@ == emit_methods(name@, crate::text::views_of(events@), capacity),
{
    if events.len() == 0 {
        return fill1(NO_EMITTER, name);
    }
    let methods = render_for_events(EMIT, events);
    let channel = |event: &String| -> (text: String)
        ensures
            text@ == add_event(capacity, event@),
        { render_add_event(capacity, event) };
    let channels = each(events, channel, Ghost(|event: Seq<char>| add_event(capacity, event)));
    fill3(WIRE_EMITTER, name, methods.as_str(), channels.as_str())
}

/// Whether an event has subscribers, in the service's own words.
pub open spec fn observed_event(event: Seq<char>) -> Seq<char> {
    crate::text::filled(OBSERVED_EVENT@, seq![event])
}

fn render_observed_event(event: &String) -> (text: String)
    ensures
        text@ == observed_event(event@),
{
    fill1(OBSERVED_EVENT, event.as_str())
}

/// The method that tells whether anyone subscribes to an event or watches
/// the view.
pub open spec fn has_observers(name: Seq<char>, events: Seq<Seq<char>>, has_view: bool) -> Seq<
    char,
> {
    crate::text::filled(
        HAS_OBSERVERS@,
        seq![
            name,
            crate::text::concat(events.map_values(|event: Seq<char>| observed_event(event))),
            if has_view {
                OBSERVED_VIEW@
            } else {
                EMPTY@
            },
        ],
    )
}

/// Writes the method that tells whether anyone subscribes to an event or
/// watches the view.
pub fn generate_has_observers(name: &str, events: &Vec<String>, has_view: bool) -> (text: String)
    ensures
        text@ == has_observers(name@, crate::text::views_of(events@), has_view),
{
    let observed = each(
        events,
        render_observed_event,
        Ghost(|event: Seq<char>| observed_event(event)),
    );
    fill3(
        HAS_OBSERVERS,
        name,
        observed.as_str(),
        if has_view {
            OBSERVED_VIEW
        } else {
            EMPTY
        },
    )
}

/// The view plumbing and the view handle type.
///
/// The seed and publish helpers exist on every service, and do nothing
/// without a view, so that the service loop can always call them. The view
/// handle offers event subscriptions and gauges, but no commands, getters,
/// or direct methods.
pub open spec fn view_impls(service: ServiceView) -> Seq<char> {
    match service.view_type {
        None => crate::text::filled(NO_VIEW@, seq![service.name]),
        Some(ty) => crate::text::filled(
            VIEW_IMPLS@,
            seq![
                service.name,
                handle_name(service.name),
                ty,
                crate::text::filled(
                    VIEW_HANDLE_NAME@,
                    seq![crate::macros::case::fragment(service.name)],
                ),
                for_subscriptions(VIEW_SUBSCRIBE@, service.events),
                for_gauges(VIEW_SAMPLER@, service.fields),
            ],
        ),
    }
}

/// Writes the view plumbing and the view handle type.
pub fn generate_view_impls(service: &Service) -> (text: String)
    ensures
        text@ == view_impls(service@),
{
    match &service.view_type {
        None => fill1(NO_VIEW, service.name.as_str()),
        Some(ty) => fill6(
            VIEW_IMPLS,
            service.name.as_str(),
            render_handle_name(service.name.as_str()).as_str(),
            ty.as_str(),
            fill1(VIEW_HANDLE_NAME, fragment_of(service.name.as_str()).as_str()).as_str(),
            render_for_subscriptions(VIEW_SUBSCRIBE, &service.events).as_str(),
            render_for_gauges(VIEW_SAMPLER, &service.fields).as_str(),
        ),
    }
}

/// The gauges that a handle holds, and its samplers.
pub open spec fn gauges(service: ServiceView) -> Seq<char> {
    crate::text::filled(
        GAUGES@,
        seq![
            crate::macros::case::fragment(service.name),
            for_gauges(GAUGE_FIELD@, service.fields),
            service.name,
            for_gauges(GAUGE_CLONE@, service.fields),
            handle_name(service.name),
            for_gauges(SAMPLER@, service.fields),
        ],
    )
}

/// Writes the gauges that a handle holds, and its samplers.
pub fn generate_gauges(service: &Service) -> (text: String)
    ensures
        text@ == gauges(service@),
{
    fill6(
        GAUGES,
        fragment_of(service.name.as_str()).as_str(),
        render_for_gauges(GAUGE_FIELD, &service.fields).as_str(),
        service.name.as_str(),
        render_for_gauges(GAUGE_CLONE, &service.fields).as_str(),
        render_handle_name(service.name.as_str()).as_str(),
        render_for_gauges(SAMPLER, &service.fields).as_str(),
    )
}

/// The handle's `cancel`, `task_completion` and `cancel_token`.
pub open spec fn shutdown_methods(handle: Seq<char>) -> Seq<char> {
    crate::text::filled(SHUTDOWN@, seq![handle])
}

/// Writes the handle's `cancel`, `task_completion` and `cancel_token`.
pub fn generate_shutdown_method(handle: &str) -> (text: String)
    ensures
        text@ == shutdown_methods(handle@),
{
    fill1(SHUTDOWN, handle)
}

/// The code around a service.
pub open spec fn service_code(service: ServiceView) -> Seq<char> {
    let handle = handle_name(service.name);
    getters(handle, service.fields) + gauges(service) + subscription_methods(
        handle,
        service.events,
    ) + emit_methods(service.name, service.events, service.event_capacity) + has_observers(
        service.name,
        service.events,
        service.view_type is Some,
    ) + constructor(service) + shutdown_methods(handle) + view_impls(service)
        + crate::text::filled(
        CAPACITY@,
        seq![
            service.name,
            crate::macros::commands::usize_literal(service.command_capacity as nat),
        ],
    )
}

/// Writes the code around a service.
pub fn generate(service: &Service) -> (text: String)
    ensures
        text@ == service_code(service@),
{
    let name = service.name.as_str();
    let handle = render_handle_name(name);
    let mut text = generate_getters(handle.as_str(), &service.fields);
    text.append(generate_gauges(service).as_str());
    text.append(generate_subscription_methods(handle.as_str(), &service.events).as_str());
    text.append(
        generate_emit_methods(name, &service.events, service.event_capacity).as_str(),
    );
    text.append(
        generate_has_observers(name, &service.events, service.view_type.is_some()).as_str(),
    );
    text.append(generate_constructor(service).as_str());
    text.append(generate_shutdown_method(handle.as_str()).as_str());
    text.append(generate_view_impls(service).as_str());
    text.append(fill2(CAPACITY, name, render_usize(service.command_capacity).as_str()).as_str());
    text
}

/// What stands in place of a struct with the given arguments, events and
/// fields.
pub open spec fn expanded_struct(
    args: ServiceArgsView,
    input: InputPartsView,
    events: Seq<Seq<char>>,
    fields: Seq<FieldPartsView>,
) -> Result<Seq<char>, Seq<char>> {
    match input.shape {
        Shape::Named => match service_fields(fields) {
            Err(message) => Err(message),
            Ok(fields) => {
                let service = ServiceView {
                    name: input.name,
                    view_type: args.view_type,
                    command_capacity: args.command_capacity,
                    event_capacity: args.event_capacity,
                    events,
                    fields,
                };
                Ok(struct_text(input, service) + service_code(service))
            },
        },
        Shape::Unnamed => Err(EXPECTED_NAMED_FIELDS@),
        _ => Err(EXPECTED_STRUCT@),
    }
}

/// Expands a struct whose parts are known.
pub fn expand_struct(
    args: ServiceArgs,
    input: &InputParts,
    events: Vec<String>,
    fields: &Vec<FieldParts>,
) -> (result: Result<String, String>)
    ensures
        match result {
            Ok(text) => expanded_struct(
                args@,
                input@,
                crate::text::views_of(events@),
                crate::text::views_of(fields@),
            ) == Ok::<_, Seq<char>>(text@),
            Err(message) => expanded_struct(
                args@,
                input@,
                crate::text::views_of(events@),
                crate::text::views_of(fields@),
            ) == Err::<Seq<char>, _>(message@),
        },
{
    match input.shape {
        Shape::Named => match collect_fields(fields) {
            Err(message) => Err(message),
            Ok(fields) => {
                let service = Service {
                    name: input.name.clone(),
                    view_type: args.view_type,
                    command_capacity: args.command_capacity,
                    event_capacity: args.event_capacity,
                    events,
                    fields,
                };
                let mut text = render_struct(input, &service);
                text.append(generate(&service).as_str());
                Ok(text)
            },
        },
        Shape::Unnamed => Err(EXPECTED_NAMED_FIELDS.to_owned()),
        _ => Err(EXPECTED_STRUCT.to_owned()),
    }
}

/// What stands in place of the item that `#[rillet::service(attr)]` is put
/// on, or what is wrong with it.
pub open spec fn expanded(attr: Seq<char>, item: Seq<char>) -> Result<Seq<char>, Seq<char>> {
    match crate::macros::fields::service_args(crate::macros::attrs::items(
        crate::macros::attrs::Context::Service,
        attr,
    )) {
        Err(message) => Err(message),
        Ok(args) => match crate::macros::syntax::input(item) {
            Err(message) => Err(message),
            Ok(input) => match crate::macros::fields::emitted(
                crate::macros::attrs::attrs_items(
                    crate::macros::attrs::Context::Struct,
                    input.attrs,
                ),
            ) {
                Err(message) => Err(message),
                Ok(events) => expanded_struct(
                    args,
                    input,
                    events,
                    crate::macros::syntax::fields(item),
                ),
            },
        },
    }
}

/// Expands `#[rillet::service]`.
pub fn expand(attr: &str, item: &str) -> (result: Result<String, String>)
    ensures
        match result {
            Ok(text) => expanded(attr@, item@) == Ok::<_, Seq<char>>(text@),
            Err(message) => expanded(attr@, item@) == Err::<Seq<char>, _>(message@),
        },
{
    let args = match parse_service_args(attr) {
        Ok(args) => args,
        Err(message) => {
            return Err(message);
        },
    };
    let input = match parse_input(item) {
        Ok(input) => input,
        Err(message) => {
            return Err(message);
        },
    };
    match parse_struct_attrs(&input.attrs) {
        Err(message) => Err(message),
        Ok(events) => expand_struct(args, &input, events, &parse_fields(item)),
    }
}

/// A handler for a type whose path ends in an event's name subscribes
/// through the very method that the event's service declares on its handle
/// and on its view handle.
pub proof fn subscriptions_agree(ty: Seq<char>, event: Seq<char>, handler: EventHandlerView)
    requires
        crate::macros::syntax::typed(ty) matches Ok(parts) && crate::macros::handlers::last_segment(
            parts.segments,
        ) == event,
        handler.subscription == crate::macros::handlers::subscription_method(ty),
    ensures
        per_subscription(SUBSCRIBE@, event) == crate::text::filled(
            SUBSCRIBE@,
            seq![handler.subscription, event],
        ),
        per_subscription(VIEW_SUBSCRIBE@, event) == crate::text::filled(
            VIEW_SUBSCRIBE@,
            seq![handler.subscription, event],
        ),
        crate::macros::spawn::event_setup(handler) == crate::text::filled(
            crate::macros::spawn::EVENT_SETUP@,
            seq![
                crate::macros::case::fragment(handler.method_name),
                handler.source_field,
                crate::macros::handlers::subscription_of(event),
            ],
        ),
{
}

} // verus!
