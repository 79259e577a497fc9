use rillet_core::macros::attrs::{
    parse_attr, parse_attrs, parse_items, read_attr, read_inner, Context,
};
use rillet_core::macros::attrs::{MetaValue, RilletAttr};
use rillet_core::macros::fields::{parse_capacity, parse_events, parse_service_args};
use rillet_core::macros::handlers::derive_subscription_method;
use rillet_core::macros::methods::{parse_method_attrs, OpRole};
use rillet_core::macros::{cheap_clone, event, handlers, service};

/// A text without its whitespace.
fn flat(text: &str) -> String {
    text.split_whitespace().collect()
}

/// Whether code contains a fragment, whatever the whitespace.
fn has(code: &str, fragment: &str) -> bool {
    flat(code).contains(&flat(fragment))
}

fn is_rust(code: &str) -> bool {
    syn::parse_file(code).is_ok()
}

fn expand_service(attr: &str, item: &str) -> String {
    let code = service::expand(attr, item).unwrap();
    assert!(is_rust(&code), "not Rust: {}", code);
    code
}

fn expand_handlers(item: &str) -> String {
    let code = handlers::expand(item).unwrap();
    assert!(is_rust(&code), "not Rust: {}", code);
    code
}

fn texts(list: &[&str]) -> Vec<String> {
    list.iter().map(|text| text.to_string()).collect()
}

const LEDGER: &str = "
    pub struct Ledger {
        pub label: String,

        #[rillet(get, default)]
        entries: Vec<u32>,

        #[rillet(get, default = 100)]
        limit: u32,
    }
";

#[test]
fn constructor_takes_non_default_fields_only() {
    let code = expand_service("", LEDGER);
    assert!(has(&code, "pub fn new(label: String"));
    assert!(!has(&code, "pub fn new(label: String, entries"));
    assert!(has(&code, "entries: Default::default(),"));
    assert!(has(&code, "limit: 100,"));
    assert!(has(&code, "pub label: String,"));
}

#[test]
fn getters_read_under_the_lock() {
    let code = expand_service("", LEDGER);
    assert!(has(&code, "impl LedgerHandle"));
    assert!(has(&code, "pub fn entries(&self) -> Vec<u32>"));
    assert!(has(&code, "pub fn limit(&self) -> u32"));
    assert!(!has(&code, "pub fn label(&self)"));
}

#[test]
fn service_attributes_are_stripped_and_others_kept() {
    let code = expand_service(
        "",
        "/// Doc.
         #[derive(Debug)]
         #[rillet(emits = [Chirp])]
         struct Bird { /// Count.
             #[rillet(get)] #[serde(skip)] chirps: u32 }",
    );
    assert!(!has(&code, "#[rillet("));
    assert!(has(&code, "#[derive(Debug)]"));
    assert!(has(&code, "#[serde(skip)]"));
    assert!(has(&code, "#[doc = \" Doc.\"]"));
}

#[test]
fn every_service_gets_its_hidden_fields() {
    let code = expand_service("", "struct Plain {}");
    assert!(has(&code, "__rillet_cancel_token: rillet::runtime::CancellationToken"));
    assert!(has(&code, "__rillet_tasks: rillet::runtime::Arc<rillet::runtime::TaskSet>"));
    assert!(has(&code, "__rillet_sampling_state: rillet::metrics::SamplingState"));
    assert!(has(&code, "__rillet_ops: rillet::op::OpsCell"));
    assert!(!has(&code, "__rillet_emitter:"));
    assert!(!has(&code, "__rillet_view_slot:"));
    assert!(has(&code, "__RILLET_COMMAND_CAPACITY: usize = 256usize;"));
}

#[test]
fn emitted_events_are_wired() {
    let code = expand_service(
        "event_capacity = 2",
        "#[rillet(emits = [Chirp, FlapStarted])] pub struct Bird {}",
    );
    assert!(has(&code, "pub fn on_chirp(&self) -> rillet::event::EventReceiver<Chirp>"));
    assert!(has(&code, "pub fn emit_chirp(&self, event: Chirp)"));
    assert!(has(&code, "pub fn chirp_published(&self) -> u64"));
    assert!(has(&code, "pub fn chirp_subscriber_count(&self) -> usize"));
    assert!(has(&code, "pub fn on_flap_started("));
    assert!(has(&code, "2usize"));
    assert!(has(&code, "subscriber_count::<Chirp>() > 0"));
}

#[test]
fn views_get_a_slot_and_a_handle() {
    let code = expand_service("view = CounterView", "struct Counter { #[rillet(default)] n: u32 }");
    assert!(has(&code, "__rillet_view_slot: Option<rillet::view::ViewSlot<CounterView>>"));
    assert!(has(&code, "pub struct CounterViewHandle"));
    assert!(has(&code, "impl From<CounterHandle> for CounterViewHandle"));
    assert!(has(&code, "pub fn watch_view(&self) -> rillet::view::ViewWatcher<CounterView>"));
    assert!(has(&code, "pub fn wait_view("));
    assert!(has(&code, "slot.publish(self.view());"));
}

#[test]
fn gauges_are_sampled_from_both_handles() {
    let code = expand_service(
        "view = RoomView",
        "struct Room { #[rillet(gauge)] mix_level: Atomic<f32> }",
    );
    let sampler = flat("pub fn mix_level(&self) -> <Atomic<f32> as rillet::gauge::GaugeCell>::Value");
    assert_eq!(flat(&code).matches(&sampler).count(), 2);
    assert!(has(&code, "mix_level: Default::default(),"));
    assert!(has(&code, "pub struct __RoomGauges"));
}

#[test]
fn the_command_capacity_is_set() {
    let code = expand_service("command_capacity = 4", "struct Narrow {}");
    assert!(has(&code, "__RILLET_COMMAND_CAPACITY: usize = 4usize;"));
}

fn service_error(attr: &str, item: &str) -> String {
    service::expand(attr, item).unwrap_err()
}

#[test]
fn wrong_service_arguments_are_reported() {
    let expected = "expected `view = ViewType`, `command_capacity = N`, or `event_capacity = N`";
    assert_eq!(service_error("size = 4", "struct S {}"), expected);
    assert_eq!(service_error("command_capacity = 0", "struct S {}"), "capacity must be at least 1");
    assert_eq!(service_error("command_capacity = x", "struct S {}"), "expected an integer literal");
    assert_eq!(service_error("view", "struct S {}"), expected);
    assert_eq!(service_error("view = A event_capacity = 2", "struct S {}"), "expected `,`");
}

#[test]
fn what_is_no_service_is_reported() {
    assert!(service::expand("", "enum E { A }").is_err());
    assert!(service::expand("", "struct T(u32);").is_err());
    assert!(service::expand("", "struct Unit;").is_err());
    assert!(service::expand("", "fn f() {}").is_err());
    assert!(service::expand("", "struct S { #[rillet(get = 1)] n: u32 }").is_err());
    assert!(service::expand("", "#[rillet(emit = [A])] struct S {}").is_err());
    assert_eq!(service_error("", "#[rillet(emits = A)] struct S {}"), "expected square brackets");
}

#[test]
fn unknown_arguments_of_fields_are_ignored() {
    let code = expand_service("", "struct S { #[rillet(got)] n: u32 }");
    assert!(has(&code, "pub fn new(n: u32"));
    assert!(service::expand("", "#[rillet(emits = [wing::Flap])] struct S {}").is_err());
}

#[test]
fn commands_become_an_enum_and_methods() {
    let code = expand_handlers(
        "impl Ledger {
            #[rillet(command)]
            fn record(&mut self, value: u32, note: String) { self.entries.push(value); }
            #[rillet(command)]
            fn clear_all(&mut self) { self.entries.clear(); }
            fn helper(&self) -> u32 { 1 }
        }",
    );
    assert!(has(&code, "enum LedgerCommand { Record(u32, String), ClearAll, }"));
    assert!(has(&code, "const COUNT: usize = 2usize;"));
    assert!(has(&code, "const NAMES: [&'static str; 2usize] = [\"record\", \"clear_all\"];"));
    assert!(has(&code, "LedgerCommand::Record(v0, v1) => state.record(v0, v1),"));
    assert!(has(&code, "LedgerCommand::ClearAll => state.clear_all(),"));
    assert!(has(&code, "pub fn record(&self, value: u32, note: String)"));
    assert!(has(&code, "LedgerCommand::Record(value, note), stringify!(record)"));
    assert!(has(&code, "fn helper(&self) -> u32 { 1 }"));
    assert!(has(&code, "metrics: rillet::runtime::Arc<rillet::metrics::CommandMetrics<2usize>>"));
    assert!(!has(&code, "#[rillet("));
}

#[test]
fn direct_methods_run_on_the_caller() {
    let code = expand_handlers(
        "impl Gauge {
            #[rillet(direct)]
            fn level_plus(&self, offset: i64) -> i64 { self.level + offset }
            #[rillet(direct_mut)]
            fn set_level(&mut self, level: i64) -> i64 { self.level = level; self.level }
        }",
    );
    assert!(has(&code, "pub fn level_plus(&self, offset: i64) -> i64"));
    assert!(has(&code, "self.state.read().unwrap().level_plus(offset)"));
    assert!(has(&code, "pub fn set_level(&self, level: i64) -> i64"));
    assert!(has(&code, "set_level(level);"));
    assert!(has(&code, "__rillet_publish_view();"));
}

#[test]
fn event_handlers_subscribe_to_their_field() {
    let code = expand_handlers(
        "impl Listener {
            #[rillet(from = bird)]
            fn on_chirp(&mut self, event: Chirp) { self.heard += event.loudness; }
        }",
    );
    assert!(has(&code, "bird.on_chirp()"));
    assert!(has(&code, "rillet::runtime::LoopState::new(1usize, false)"));
}

#[test]
fn watch_handlers_watch_their_field() {
    let code = expand_handlers(
        "impl SplitMirror {
            #[rillet(watch = left)]
            fn on_left_view(&mut self, view: Arc<CounterView>) { self.left_value = view.value; }
            #[rillet(watch = right)]
            fn on_right_view(&mut self, view: Arc<CounterView>) { self.right_value = view.value; }
        }",
    );
    assert!(has(&code, "left.watch_view()"));
    assert!(has(&code, "right.watch_view()"));
    assert!(has(&code, "rillet::runtime::LoopState::new(0usize, true)"));
}

#[test]
fn tasks_are_spawned_with_their_context() {
    let code = expand_handlers(
        "impl Loader {
            #[rillet(task)]
            async fn beat(handle: LoaderHandle, cancel: CancellationToken) {}
            #[rillet(task)]
            async fn feed(handle: LoaderHandle, _cancel: CancellationToken, source: Vec<u32>) {}
        }",
    );
    assert!(has(&code, "pub fn spawn_feed(self, source: Vec<u32>)"));
    assert!(has(&code, "Loader::beat(handle, cancel_token).await;"));
    assert!(has(&code, "pub fn spawn_with<__S: rillet::runtime::Spawner>"));
}

#[test]
fn immediate_ops_conclude_with_their_result() {
    let code = expand_handlers(
        "impl Store {
            #[rillet(op)]
            fn submit(&mut self, item: u32) -> Result<(), Rejected> { Ok(()) }
        }",
    );
    assert!(has(&code, "pub fn submit(&self, item: u32) -> rillet::op::Op<"));
    assert!(has(&code, "rillet::op::Op::__rillet_pair("));
}

#[test]
fn deferred_ops_are_parked_and_concluded_by_key() {
    let code = expand_handlers(
        "impl Courier {
            #[rillet(op(execute = dispatch, timeout = Failure::TimedOut))]
            fn send(id: u32, deadline: Instant) -> Start<u32, Failure> {
                Start::new(id).deadline(deadline)
            }
            fn dispatch(&mut self, id: u32) {}
        }",
    );
    assert!(has(&code, "pub fn send(&self, id: u32, deadline: Instant) -> rillet::op::Op<"));
    assert!(has(&code, "fn succeed_send("));
    assert!(has(&code, "fn fail_send("));
    assert!(has(&code, "Failure::TimedOut"));
    assert!(has(&code, "rillet::op::expire_loop("));
    assert!(has(&code, "dispatch("));
}

#[test]
fn generics_carry_over() {
    let code = expand_handlers("impl<T> Holder where T: Clone { fn keep(&self) {} }");
    assert!(has(&code, "impl<T> Holder where T: Clone"));
}

fn handlers_error(item: &str) -> String {
    handlers::expand(item).unwrap_err()
}

#[test]
fn wrong_handlers_are_reported() {
    assert!(handlers_error("impl S { #[rillet(cmd)] fn f(&mut self) {} }")
        .starts_with("unknown rillet attribute; expected `command`"));
    assert_eq!(
        handlers_error("impl S { #[rillet] fn f(&mut self) {} }"),
        "expected attribute arguments in parentheses: #[rillet(...)]"
    );
    assert_eq!(
        handlers_error("impl S { #[rillet(command)] fn f(&mut self, (a, b): (u32, u32)) {} }"),
        "rillet handler parameters must be simple identifiers"
    );
    assert_eq!(
        handlers_error("impl S { #[rillet(from = a)] fn f(&mut self) {} }"),
        "event handler must have an event parameter"
    );
    assert_eq!(
        handlers_error("impl S { #[rillet(op(execute = run))] fn f() -> Start<u32, R> {} }"),
        "expected `op(execute = <method>, timeout = <reason>)`"
    );
    assert_eq!(handlers_error("impl a::S { }"), "expected a simple type name");
    assert_eq!(
        handlers_error("impl S { #[rillet(from)] fn f(&mut self, e: E) {} }"),
        "expected `=`"
    );
    assert!(handlers::expand("struct S {}").is_err());
}

#[test]
fn subscriptions_of_services_and_handlers_agree() {
    for event in ["Chirp", "HTTPRequest", "Layer2Started"] {
        let method = derive_subscription_method(event);
        let item = format!("#[rillet(emits = [{}])] struct Source {{}}", event);
        let code = expand_service("", &item);
        assert!(has(&code, &format!("pub fn {}(&self)", method)), "{}", method);
    }
    assert_eq!(derive_subscription_method("Chirp"), "on_chirp");
    assert_eq!(derive_subscription_method("wing::HTTPRequest"), "on_http_request");
}

#[test]
fn event_derives_the_marker() {
    assert_eq!(
        flat(&event::expand("pub struct Chirp { pub loudness: u32 }").unwrap()),
        flat("impl rillet::event::Event for Chirp {}")
    );
    assert_eq!(
        event::expand("struct Wrap<T>(T);").unwrap_err(),
        "Event cannot be derived for generic types"
    );
    assert!(event::expand("fn f() {}").is_err());
}

#[test]
fn cheap_clone_bounds_every_field() {
    let code = cheap_clone::expand("struct Roster { names: Vector<SmolStr>, motd: Option<u8> }");
    assert_eq!(
        flat(&code.unwrap()),
        flat(
            "impl rillet::view::CheapClone for Roster
             where Vector<SmolStr>: rillet::view::CheapClone,
                   Option<u8>: rillet::view::CheapClone {}"
        )
    );
    let code = cheap_clone::expand("enum Either<L: Clone, R> where R: Copy { A(L), B { r: R } }");
    let code = code.unwrap();
    assert!(is_rust(&code), "{}", code);
    assert!(has(&code, "impl<L: Clone, R> rillet::view::CheapClone for Either<L, R>"));
    assert!(has(&code, "R: Copy, L: rillet::view::CheapClone, R: rillet::view::CheapClone"));
    let code = cheap_clone::expand("struct Trailing<T> where T: Copy, { t: T }").unwrap();
    assert!(is_rust(&code), "{}", code);
    assert!(has(&code, "T: Copy, T: rillet::view::CheapClone"));
    assert!(is_rust(&cheap_clone::expand("struct Unit;").unwrap()));
}

#[test]
fn cheap_clone_refuses_unions() {
    assert_eq!(
        cheap_clone::expand("union U { a: u8 }").unwrap_err(),
        "CheapClone cannot be derived for unions"
    );
}

#[test]
fn attribute_arguments_are_read_one_by_one() {
    let parsed = parse_items(Context::Service, "get, default = 1 + f(2, 3), op(execute = run)");
    assert!(parsed.error.is_none());
    assert_eq!(parsed.items.len(), 3);
    assert!(matches!(parsed.items[0].value, MetaValue::Bare));
    assert!(
        matches!(&parsed.items[1].value, MetaValue::Assigned { expr } if flat(expr) == "1+f(2,3)")
    );
    assert!(
        matches!(&parsed.items[2].value, MetaValue::List { inner } if flat(inner) == "execute=run")
    );
    assert_eq!(parse_items(Context::Method, "").items.len(), 0);
}

#[test]
fn an_error_leaves_the_arguments_before_it() {
    let parsed = parse_items(Context::Flag, "get default");
    assert_eq!(parsed.items.len(), 1);
    assert_eq!(parsed.error, Some(String::from("expected `,`")));
    let parsed = parse_items(Context::Flag, "get, 7");
    assert_eq!(parsed.items.len(), 1);
    assert_eq!(
        parsed.error,
        Some(String::from("unexpected literal in nested attribute, expected ident"))
    );
}

#[test]
fn attributes_are_told_apart() {
    assert!(matches!(read_attr("#[doc = \"x\"]"), RilletAttr::Other));
    assert!(matches!(read_attr("#[rillet(get)]"), RilletAttr::Args { .. }));
    assert!(matches!(read_attr("#[rillet]"), RilletAttr::Malformed { valued: false }));
    assert!(matches!(read_attr("#[rillet = 1]"), RilletAttr::Malformed { valued: true }));
    assert!(read_inner("#![allow(x)]"));
    assert!(!read_inner("#[allow(x)]"));
    assert_eq!(parse_attr(Context::Flag, "#[serde(skip)]").items.len(), 0);
    let attrs = texts(&["#[rillet(get)]", "#[doc(hidden)]", "#[rillet(default)]"]);
    let both = parse_attrs(Context::Flag, &attrs);
    assert_eq!(both.items.len(), 2);
}

#[test]
fn method_roles_are_read() {
    let roles = parse_method_attrs(&texts(&["#[rillet(command)]"]));
    assert!(roles.is_ok_and(|roles| roles.is_command && !roles.is_task));
    let roles = parse_method_attrs(&texts(&["#[rillet(op(execute = run, timeout = T::Out))]"]));
    assert!(roles.is_ok_and(|roles| matches!(roles.op, Some(OpRole::Deferred { .. }))));
    let roles = parse_method_attrs(&texts(&["#[rillet(op)]"]));
    assert!(roles.is_ok_and(|roles| matches!(roles.op, Some(OpRole::Immediate))));
}

#[test]
fn service_arguments_have_defaults() {
    let args = parse_service_args("").ok().unwrap();
    assert_eq!((args.command_capacity, args.event_capacity), (256, 256));
    assert!(args.view_type.is_none());
    let args = parse_service_args("view = crate::V, command_capacity = 64, event_capacity = 8");
    let args = args.ok().unwrap();
    assert_eq!((args.command_capacity, args.event_capacity), (64, 8));
    assert_eq!(args.view_type.map(|view| flat(&view)), Some(String::from("crate::V")));
}

#[test]
fn capacities_are_positive_integers() {
    assert_eq!(parse_capacity("64"), Ok(64));
    assert_eq!(parse_capacity("0x10"), Ok(16));
    assert_eq!(parse_capacity("1_000usize"), Ok(1000));
    assert_eq!(parse_capacity("0"), Err(String::from("capacity must be at least 1")));
    assert_eq!(parse_capacity("-1"), Err(String::from("expected an integer literal")));
    assert_eq!(
        parse_capacity("99999999999999999999"),
        Err(String::from("number too large to fit in target type"))
    );
}

#[test]
fn events_are_listed_in_brackets() {
    assert_eq!(parse_events("A, B,").map(|events| events.len()), Ok(2));
    assert_eq!(parse_events("").map(|events| events.len()), Ok(0));
    assert_eq!(
        parse_events("A, type"),
        Err(String::from("expected identifier, found keyword `type`"))
    );
    assert_eq!(parse_events("A, 7"), Err(String::from("expected identifier")));
}

/// What syn itself says of a method's attribute whose arguments are read as
/// names, with an identifier behind `from`.
fn told_by_syn(attr: &str) -> Option<String> {
    let method: syn::ImplItemFn = syn::parse_str(&format!("{} fn f() {{}}", attr)).unwrap();
    let read = method.attrs[0].parse_nested_meta(|meta| {
        if meta.path.is_ident("from") {
            meta.input.parse::<syn::token::Eq>()?;
            meta.input.parse::<syn::Ident>()?;
        }
        Ok(())
    });
    read.err().map(|error| error.to_string())
}

#[test]
fn malformed_method_attributes_are_told_as_syn_tells_them() {
    for attr in [
        "#[rillet]",
        "#[rillet = 1]",
        "#[rillet()]",
        "#[rillet(command)]",
        "#[rillet(command, )]",
        "#[rillet[command]]",
        "#[rillet(7)]",
        "#[rillet(-7)]",
        "#[rillet(\"x\")]",
        "#[rillet(-\"x\")]",
        "#[rillet(+)]",
        "#[rillet(,)]",
        "#[rillet((command))]",
        "#[rillet(command command)]",
        "#[rillet(command = 1)]",
        "#[rillet(command = type)]",
        "#[rillet(command(x))]",
        "#[rillet(command, 'c')]",
        "#[rillet(::)]",
        "#[rillet(:: 7)]",
        "#[rillet(from)]",
        "#[rillet(from, command)]",
        "#[rillet(from = )]",
        "#[rillet(from = clock)]",
        "#[rillet(from = r#type)]",
        "#[rillet(from = type)]",
        "#[rillet(from = _)]",
        "#[rillet(from = 7)]",
        "#[rillet(from = a.b)]",
        "#[rillet(from = a, from = b)]",
        "#[rillet(from(a))]",
    ] {
        let read = parse_attr(Context::Method, attr);
        assert_eq!(read.error, told_by_syn(attr), "{}", attr);
    }
    let path = parse_attr(Context::Method, "#[rillet(command::)]");
    assert_eq!(path.error, told_by_syn("#[rillet(command::)]"));
    let path = parse_attr(Context::Method, "#[rillet(command::7)]");
    assert_eq!(path.error, told_by_syn("#[rillet(command::7)]"));
}

/// What syn itself says of the service attribute's arguments.
fn service_told_by_syn(args: &str) -> Option<String> {
    let attr = format!("#[service({})] struct S;", args);
    let item: syn::ItemStruct = syn::parse_str(&attr).unwrap();
    let parser =
        syn::punctuated::Punctuated::<syn::Meta, syn::token::Comma>::parse_terminated;
    item.attrs[0].parse_args_with(parser).err().map(|error| error.to_string())
}

#[test]
fn malformed_service_arguments_are_told_as_syn_tells_them() {
    for args in [
        "",
        "view = A",
        "view = A,",
        "view A",
        "view == A",
        "view => A",
        "7",
        "type = 1",
        "unsafe",
        "a::b = 1, crate::c",
        "a::",
        "a::7",
        "a::type",
        "::",
        "view = #[x] A",
        "view = ",
        "view(1), view[2], view{3}",
        ", view",
    ] {
        let read = parse_items(Context::Service, args);
        assert_eq!(read.error, service_told_by_syn(args), "{}", args);
    }
}

#[test]
fn bounds_come_in_the_order_of_the_fields() {
    let list = cheap_clone::field_bounds("struct S { a: A, b: Vec<B> }");
    let flat_list: Vec<String> = list.iter().map(|bound| flat(bound)).collect();
    assert_eq!(flat_list, ["A:rillet::view::CheapClone", "Vec<B>:rillet::view::CheapClone"]);
    let list = cheap_clone::field_bounds("enum E { One(A), None, Two { b: B, c: C } }");
    assert_eq!(list.len(), 3);
    assert!(list[2].starts_with('C'));
    assert_eq!(cheap_clone::field_bounds("struct Unit;").len(), 0);
}
