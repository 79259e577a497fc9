//! What `#[rillet::service]` reads: its own arguments, the events a struct
//! emits, and the roles of its fields.

use crate::macros::attrs::{
    Context, EXPECTED_COMMA, EXPECTED_EQUALS, MetaItem, MetaItemView, MetaItems, MetaItemsView,
    MetaValue, MetaValueView, UNEXPECTED_TOKEN, find_identifier, missing_identifier, parse_attr,
    parse_attrs, parse_items, punct_at,
};
use crate::macros::methods::named;
use crate::macros::syntax::{
    FieldParts, FieldPartsView, Tree, TreeView,
    lex, parse_integer, parse_type,
};
use crate::text::starts_with;
use vstd::prelude::*;

verus! {

pub const VIEW: &'static str = "view";

pub const COMMAND_CAPACITY: &'static str = "command_capacity";

pub const EVENT_CAPACITY: &'static str = "event_capacity";

pub const EMITS: &'static str = "emits";

pub const GET: &'static str = "get";

pub const DEFAULT: &'static str = "default";

pub const GAUGE: &'static str = "gauge";

/// What the names of hidden fields start with.
pub const HIDDEN: &'static str = "__rillet_";

/// How many commands, and how many events of a type, wait unless an
/// argument says otherwise.
pub const DEFAULT_CAPACITY: usize = 256;

pub const EXPECTED_SERVICE_ARGS: &'static str =
    "expected `view = ViewType`, `command_capacity = N`, or `event_capacity = N`";

pub const EXPECTED_INTEGER: &'static str = "expected an integer literal";

pub const EXPECTED_CAPACITY: &'static str = "capacity must be at least 1";

pub const TOO_LARGE: &'static str = "number too large to fit in target type";

/// The arguments of the service attribute itself.
pub struct ServiceArgs {
    pub view_type: Option<String>,
    pub command_capacity: usize,
    pub event_capacity: usize,
}

/// The service attribute's arguments, as mathematics.
pub struct ServiceArgsView {
    pub view_type: Option<Seq<char>>,
    pub command_capacity: usize,
    pub event_capacity: usize,
}

impl View for ServiceArgs {
    type V = ServiceArgsView;

    open spec fn view(&self) -> ServiceArgsView {
        ServiceArgsView {
            view_type: crate::macros::syntax::optional(self.view_type),
            command_capacity: self.command_capacity,
            event_capacity: self.event_capacity,
        }
    }
}

/// What an integer literal's value is as a capacity.
pub open spec fn capacity_of(value: Option<Result<u64, Seq<char>>>) -> Result<usize, Seq<char>> {
    match value {
        None => Err(EXPECTED_INTEGER@),
        Some(Err(message)) => Err(message),
        Some(Ok(n)) => if n == 0 {
            Err(EXPECTED_CAPACITY@)
        } else if n > usize::MAX {
            Err(TOO_LARGE@)
        } else {
            Ok(n as usize)
        },
    }
}

/// The capacity an expression spells.
pub open spec fn capacity(expr: Seq<char>) -> Result<usize, Seq<char>> {
    match crate::macros::syntax::lexed(expr) {
        Some(trees) => if trees.len() == 1 {
            capacity_of(crate::macros::syntax::integer(expr))
        } else {
            Err(EXPECTED_INTEGER@)
        },
        None => Err(EXPECTED_INTEGER@),
    }
}

/// The service attribute's arguments with one more.
pub open spec fn with_arg(args: ServiceArgsView, item: MetaItemView) -> Result<
    ServiceArgsView,
    Seq<char>,
> {
    match item.value {
        MetaValueView::Assigned { expr } => if item.name == VIEW@ {
            match crate::macros::syntax::typed(expr) {
                Err(message) => Err(message),
                Ok(parts) => Ok(ServiceArgsView { view_type: Some(parts.text), ..args }),
            }
        } else if item.name == COMMAND_CAPACITY@ {
            match capacity(expr) {
                Err(message) => Err(message),
                Ok(n) => Ok(ServiceArgsView { command_capacity: n, ..args }),
            }
        } else if item.name == EVENT_CAPACITY@ {
            match capacity(expr) {
                Err(message) => Err(message),
                Ok(n) => Ok(ServiceArgsView { event_capacity: n, ..args }),
            }
        } else {
            Err(EXPECTED_SERVICE_ARGS@)
        },
        _ => Err(EXPECTED_SERVICE_ARGS@),
    }
}

/// The service attribute's arguments out of the first `n` items.
pub open spec fn args_of(items: Seq<MetaItemView>, n: nat) -> Result<ServiceArgsView, Seq<char>>
    decreases n,
{
    if n == 0 {
        Ok(
            ServiceArgsView {
                view_type: None,
                command_capacity: DEFAULT_CAPACITY,
                event_capacity: DEFAULT_CAPACITY,
            },
        )
    } else {
        match args_of(items, (n - 1) as nat) {
            Err(message) => Err(message),
            Ok(args) => with_arg(args, items[n - 1]),
        }
    }
}

/// The service attribute's arguments: a malformed item counts before one
/// that is not known.
pub open spec fn service_args(parsed: MetaItemsView) -> Result<ServiceArgsView, Seq<char>> {
    match parsed.error {
        Some(message) => Err(message),
        None => args_of(parsed.items, parsed.items.len()),
    }
}

proof fn lemma_args_err(items: Seq<MetaItemView>, n: nat, m: nat)
    requires
        n <= m,
        args_of(items, n) is Err,
    ensures
        args_of(items, m) == args_of(items, n),
    decreases m,
{
    if n < m {
        lemma_args_err(items, n, (m - 1) as nat);
    }
}

/// Reads an integer literal's value as a capacity.
pub fn read_capacity(value: Option<Result<u64, String>>) -> (capacity: Result<usize, String>)
    ensures
        match (value, capacity) {
            (None, Err(message)) => message@ == EXPECTED_INTEGER@,
            (Some(Err(reason)), Err(message)) => message@ == reason@,
            (Some(Ok(n)), _) => match capacity {
                Ok(c) => capacity_of(Some(Ok::<u64, Seq<char>>(n))) == Ok::<_, Seq<char>>(c),
                Err(message) => capacity_of(Some(Ok::<u64, Seq<char>>(n))) == Err::<usize, _>(
                    message@,
                ),
            },
            _ => false,
        },
{
    match value {
        None => Err(EXPECTED_INTEGER.to_owned()),
        Some(Err(message)) => Err(message),
        Some(Ok(n)) => if n == 0 {
            Err(EXPECTED_CAPACITY.to_owned())
        } else if n > usize::MAX as u64 {
            Err(TOO_LARGE.to_owned())
        } else {
            Ok(n as usize)
        },
    }
}

/// Reads the capacity an expression spells.
pub fn parse_capacity(expr: &str) -> (parsed: Result<usize, String>)
    ensures
        match parsed {
            Ok(n) => capacity(expr@) == Ok::<_, Seq<char>>(n),
            Err(message) => capacity(expr@) == Err::<usize, _>(message@),
        },
{
    match lex(expr) {
        Some(trees) => if trees.len() == 1 {
            read_capacity(parse_integer(expr))
        } else {
            Err(EXPECTED_INTEGER.to_owned())
        },
        None => Err(EXPECTED_INTEGER.to_owned()),
    }
}

fn add_arg(args: ServiceArgs, item: &MetaItem) -> (result: Result<ServiceArgs, String>)
    ensures
        match result {
            Ok(more) => with_arg(args@, item@) == Ok::<_, Seq<char>>(more@),
            Err(message) => with_arg(args@, item@) == Err::<ServiceArgsView, _>(message@),
        },
{
    let mut more = args;
    if let MetaValue::Assigned { expr } = &item.value {
        if named(&item.name, VIEW) {
            return match parse_type(expr.as_str()) {
                Ok(parts) => {
                    more.view_type = Some(parts.text);
                    Ok(more)
                },
                Err(message) => Err(message),
            };
        }
        if named(&item.name, COMMAND_CAPACITY) {
            return match parse_capacity(expr.as_str()) {
                Ok(n) => {
                    more.command_capacity = n;
                    Ok(more)
                },
                Err(message) => Err(message),
            };
        }
        if named(&item.name, EVENT_CAPACITY) {
            return match parse_capacity(expr.as_str()) {
                Ok(n) => {
                    more.event_capacity = n;
                    Ok(more)
                },
                Err(message) => Err(message),
            };
        }
    }
    Err(EXPECTED_SERVICE_ARGS.to_owned())
}

/// Reads the service attribute's arguments.
pub fn read_service_args(parsed: &MetaItems) -> (result: Result<ServiceArgs, String>)
    ensures
        match result {
            Ok(args) => service_args(parsed@) == Ok::<_, Seq<char>>(args@),
            Err(message) => service_args(parsed@) == Err::<ServiceArgsView, _>(message@),
        },
{
    let ghost items = parsed@.items;
    if let Some(message) = &parsed.error {
        return Err(message.clone());
    }
    let mut args = ServiceArgs {
        view_type: None,
        command_capacity: DEFAULT_CAPACITY,
        event_capacity: DEFAULT_CAPACITY,
    };
    for i in 0..parsed.items.len()
        invariant
            items == parsed@.items,
            parsed@.error is None,
            args_of(items, i as nat) == Ok::<_, Seq<char>>(args@),
    {
        assert(items[i as int] == parsed.items@[i as int]@);
        match add_arg(args, &parsed.items[i]) {
            Ok(more) => {
                args = more;
            },
            Err(message) => {
                proof {
                    lemma_args_err(items, (i + 1) as nat, items.len());
                }
                return Err(message);
            },
        }
    }
    Ok(args)
}

/// Reads the service attribute's arguments out of their text.
pub fn parse_service_args(attr: &str) -> (result: Result<ServiceArgs, String>)
    ensures
        match result {
            Ok(args) => service_args(crate::macros::attrs::items(Context::Service, attr@)) == Ok::<_, Seq<char>>(
                args@,
            ),
            Err(message) => service_args(crate::macros::attrs::items(Context::Service, attr@)) == Err::<
                ServiceArgsView,
                _,
            >(message@),
        },
{
    read_service_args(&parse_items(Context::Service, attr))
}

/// The events listed from a position on, separated by commas.
pub open spec fn events_at(trees: Seq<TreeView>, i: int) -> Result<Seq<Seq<char>>, Seq<char>>
    decreases trees.len() - i,
{
    if !(0 <= i < trees.len()) {
        Ok(seq![])
    } else {
        match crate::macros::attrs::identifier_at(trees, i) {
            None => Err(crate::macros::attrs::no_identifier(trees, i)),
            Some(event) => if i + 1 >= trees.len() {
                Ok(seq![event])
            } else if !crate::macros::attrs::is_punct(trees, i + 1, ',') {
                Err(EXPECTED_COMMA@)
            } else {
                match events_at(trees, i + 2) {
                    Err(message) => Err(message),
                    Ok(rest) => Ok(seq![event] + rest),
                }
            },
        }
    }
}

/// The events that a text between square brackets lists.
pub open spec fn events_of(inner: Seq<char>) -> Result<Seq<Seq<char>>, Seq<char>> {
    match crate::macros::syntax::lexed(inner) {
        Some(trees) => events_at(trees, 0),
        None => Err(UNEXPECTED_TOKEN@),
    }
}

/// The events that one of a struct's arguments names.
pub open spec fn item_events(item: MetaItemView) -> Result<Seq<Seq<char>>, Seq<char>> {
    if item.name == EMITS@ {
        match item.value {
            MetaValueView::List { inner } => events_of(inner),
            _ => Err(EXPECTED_EQUALS@),
        }
    } else {
        match item.value {
            MetaValueView::Bare => Ok(seq![]),
            _ => Err(EXPECTED_COMMA@),
        }
    }
}

/// The events that the first `n` of a struct's arguments name.
pub open spec fn items_events(items: Seq<MetaItemView>, n: nat) -> Result<
    Seq<Seq<char>>,
    Seq<char>,
>
    decreases n,
{
    if n == 0 {
        Ok(seq![])
    } else {
        match items_events(items, (n - 1) as nat) {
            Err(message) => Err(message),
            Ok(before) => match item_events(items[n - 1]) {
                Err(message) => Err(message),
                Ok(more) => Ok(before + more),
            },
        }
    }
}

/// The events that a struct's arguments name.
pub open spec fn emitted(parsed: MetaItemsView) -> Result<Seq<Seq<char>>, Seq<char>> {
    match items_events(parsed.items, parsed.items.len()) {
        Err(message) => Err(message),
        Ok(events) => match parsed.error {
            Some(message) => Err(message),
            None => Ok(events),
        },
    }
}

proof fn lemma_items_events_err(items: Seq<MetaItemView>, n: nat, m: nat)
    requires
        n <= m,
        items_events(items, n) is Err,
    ensures
        items_events(items, m) == items_events(items, n),
    decreases m,
{
    if n < m {
        lemma_items_events_err(items, n, (m - 1) as nat);
    }
}

fn read_events(trees: &Vec<Tree>) -> (events: Result<Vec<String>, String>)
    ensures
        match events {
            Ok(events) => events_at(crate::text::views_of(trees@), 0) == Ok::<_, Seq<char>>(
                crate::text::views_of(events@),
            ),
            Err(message) => events_at(crate::text::views_of(trees@), 0) == Err::<
                Seq<Seq<char>>,
                _,
            >(message@),
        },
{
    let ghost all = crate::text::views_of(trees@);
    let mut events: Vec<String> = Vec::new();
    let mut i: usize = 0;
    assert(crate::text::views_of(events@) =~= seq![]);
    proof {
        if let Ok(rest) = events_at(all, 0) {
            assert(crate::text::views_of(events@) + rest =~= rest);
        }
    }
    while i < trees.len()
        invariant
            all == crate::text::views_of(trees@),
            events_at(all, 0) == match events_at(all, i as int) {
                Ok(rest) => Ok(crate::text::views_of(events@) + rest),
                Err(message) => Err(message),
            },
        decreases trees.len() - i,
    {
        let ghost before = crate::text::views_of(events@);
        let event = match find_identifier(trees, i) {
            Some(event) => event,
            None => {
                return Err(missing_identifier(trees, i));
            },
        };
        let ghost name = event@;
        events.push(event);
        assert(crate::text::views_of(events@) =~= before.push(name));
        assert(before + seq![name] =~= before.push(name));
        if trees.len() - i == 1 {
            return Ok(events);
        }
        if !punct_at(trees, i + 1, ',') {
            return Err(EXPECTED_COMMA.to_owned());
        }
        proof {
            if let Ok(rest) = events_at(all, i + 2) {
                assert(before + (seq![name] + rest) =~= before.push(name) + rest);
            }
        }
        if trees.len() - i == 2 {
            assert(crate::text::views_of(events@) + seq![] =~= crate::text::views_of(events@));
            return Ok(events);
        }
        i = i + 2;
    }
    assert(crate::text::views_of(events@) + seq![] =~= crate::text::views_of(events@));
    Ok(events)
}

/// Reads the events that a text between square brackets lists.
pub fn parse_events(inner: &str) -> (events: Result<Vec<String>, String>)
    ensures
        match events {
            Ok(events) => events_of(inner@) == Ok::<_, Seq<char>>(crate::text::views_of(events@)),
            Err(message) => events_of(inner@) == Err::<Seq<Seq<char>>, _>(message@),
        },
{
    match lex(inner) {
        Some(trees) => read_events(&trees),
        None => Err(UNEXPECTED_TOKEN.to_owned()),
    }
}

fn read_item_events(item: &MetaItem) -> (events: Result<Vec<String>, String>)
    ensures
        match events {
            Ok(events) => item_events(item@) == Ok::<_, Seq<char>>(crate::text::views_of(events@)),
            Err(message) => item_events(item@) == Err::<Seq<Seq<char>>, _>(message@),
        },
{
    if named(&item.name, EMITS) {
        match &item.value {
            MetaValue::List { inner } => parse_events(inner.as_str()),
            _ => Err(EXPECTED_EQUALS.to_owned()),
        }
    } else {
        match &item.value {
            MetaValue::Bare => {
                let none: Vec<String> = Vec::new();
                assert(crate::text::views_of(none@) =~= seq![]);
                Ok(none)
            },
            _ => Err(EXPECTED_COMMA.to_owned()),
        }
    }
}

/// Reads the events that a struct's arguments name.
pub fn read_emitted(parsed: &MetaItems) -> (events: Result<Vec<String>, String>)
    ensures
        match events {
            Ok(events) => emitted(parsed@) == Ok::<_, Seq<char>>(crate::text::views_of(events@)),
            Err(message) => emitted(parsed@) == Err::<Seq<Seq<char>>, _>(message@),
        },
{
    let ghost items = parsed@.items;
    let mut events: Vec<String> = Vec::new();
    assert(crate::text::views_of(events@) =~= seq![]);
    for i in 0..parsed.items.len()
        invariant
            items == parsed@.items,
            items_events(items, i as nat) == Ok::<_, Seq<char>>(crate::text::views_of(events@)),
    {
        assert(items[i as int] == parsed.items@[i as int]@);
        match read_item_events(&parsed.items[i]) {
            Ok(found) => {
                let mut more = found;
                let ghost before = crate::text::views_of(events@);
                let ghost added = crate::text::views_of(more@);
                events.append(&mut more);
                assert(crate::text::views_of(events@) =~= before + added);
            },
            Err(message) => {
                proof {
                    lemma_items_events_err(items, (i + 1) as nat, items.len());
                }
                return Err(message);
            },
        }
    }
    match &parsed.error {
        Some(message) => Err(message.clone()),
        None => Ok(events),
    }
}

/// Reads the events that a struct's attributes name.
pub fn parse_struct_attrs(attrs: &Vec<String>) -> (events: Result<Vec<String>, String>)
    ensures
        match events {
            Ok(events) => emitted(
                crate::macros::attrs::attrs_items(Context::Struct, crate::text::views_of(attrs@)),
            ) == Ok::<_, Seq<char>>(crate::text::views_of(events@)),
            Err(message) => emitted(
                crate::macros::attrs::attrs_items(Context::Struct, crate::text::views_of(attrs@)),
            ) == Err::<Seq<Seq<char>>, _>(message@),
        },
{
    read_emitted(&parse_attrs(Context::Struct, attrs))
}

/// How a field starts out.
pub enum FieldDefault {
    /// With an argument of the constructor.
    Absent,
    /// With its type's default.
    Trait,
    /// With an expression.
    Given { expr: String },
}

/// How a field starts out, as mathematics.
pub enum FieldDefaultView {
    Absent,
    Trait,
    Given { expr: Seq<char> },
}

impl View for FieldDefault {
    type V = FieldDefaultView;

    open spec fn view(&self) -> FieldDefaultView {
        match self {
            FieldDefault::Absent => FieldDefaultView::Absent,
            FieldDefault::Trait => FieldDefaultView::Trait,
            FieldDefault::Given { expr } => FieldDefaultView::Given { expr: expr@ },
        }
    }
}

/// Whether one of the first `n` arguments is the given bare keyword.
pub open spec fn flagged(items: Seq<MetaItemView>, keyword: Seq<char>, n: nat) -> Result<
    bool,
    Seq<char>,
>
    decreases n,
{
    if n == 0 {
        Ok(false)
    } else {
        match flagged(items, keyword, (n - 1) as nat) {
            Err(message) => Err(message),
            Ok(before) => if items[n - 1].name == keyword {
                match items[n - 1].value {
                    MetaValueView::Bare => Ok(true),
                    _ => Err(EXPECTED_COMMA@),
                }
            } else {
                Ok(before)
            },
        }
    }
}

/// Whether an attribute's arguments hold the given bare keyword.
pub open spec fn attr_flag(parsed: MetaItemsView, keyword: Seq<char>) -> Result<bool, Seq<char>> {
    match flagged(parsed.items, keyword, parsed.items.len()) {
        Err(message) => Err(message),
        Ok(found) => match parsed.error {
            Some(message) => Err(message),
            None => Ok(found),
        },
    }
}

/// Whether one of the attributes from a position on holds the given bare
/// keyword; those behind it are not read.
pub open spec fn flag_from(attrs: Seq<Seq<char>>, keyword: Seq<char>, i: int) -> Result<
    bool,
    Seq<char>,
>
    decreases attrs.len() - i,
{
    if !(0 <= i < attrs.len()) {
        Ok(false)
    } else {
        match attr_flag(crate::macros::attrs::attr_items(Context::Flag, attrs[i]), keyword) {
            Err(message) => Err(message),
            Ok(true) => Ok(true),
            Ok(false) => flag_from(attrs, keyword, i + 1),
        }
    }
}

/// Whether a field's attributes hold the given bare keyword; those of a
/// hidden field are not read.
pub open spec fn field_flag(field: FieldPartsView, keyword: Seq<char>) -> Result<bool, Seq<char>> {
    if crate::text::has_prefix(field.name, HIDDEN@) {
        Ok(false)
    } else {
        flag_from(field.attrs, keyword, 0)
    }
}

/// The default that the first `n` arguments name.
pub open spec fn default_of(items: Seq<MetaItemView>, n: nat) -> Result<
    FieldDefaultView,
    Seq<char>,
>
    decreases n,
{
    if n == 0 {
        Ok(FieldDefaultView::Absent)
    } else {
        match default_of(items, (n - 1) as nat) {
            Err(message) => Err(message),
            Ok(before) => if items[n - 1].name == DEFAULT@ {
                match items[n - 1].value {
                    MetaValueView::Bare => Ok(FieldDefaultView::Trait),
                    MetaValueView::Assigned { expr } => Ok(FieldDefaultView::Given { expr }),
                    MetaValueView::List { .. } => Err(EXPECTED_COMMA@),
                }
            } else {
                match items[n - 1].value {
                    MetaValueView::Bare => Ok(before),
                    _ => Err(EXPECTED_COMMA@),
                }
            },
        }
    }
}

/// The default that an attribute's arguments name.
pub open spec fn attr_default(parsed: MetaItemsView) -> Result<FieldDefaultView, Seq<char>> {
    match default_of(parsed.items, parsed.items.len()) {
        Err(message) => Err(message),
        Ok(found) => match parsed.error {
            Some(message) => Err(message),
            None => Ok(found),
        },
    }
}

/// The default that the attributes from a position on name; those behind
/// the first that names one are not read.
pub open spec fn default_from(attrs: Seq<Seq<char>>, i: int) -> Result<
    FieldDefaultView,
    Seq<char>,
>
    decreases attrs.len() - i,
{
    if !(0 <= i < attrs.len()) {
        Ok(FieldDefaultView::Absent)
    } else {
        match attr_default(crate::macros::attrs::attr_items(Context::Default, attrs[i])) {
            Err(message) => Err(message),
            Ok(FieldDefaultView::Absent) => default_from(attrs, i + 1),
            Ok(found) => Ok(found),
        }
    }
}

/// The default that a field's attributes name; those of a hidden field are
/// not read.
pub open spec fn field_default(field: FieldPartsView) -> Result<FieldDefaultView, Seq<char>> {
    if crate::text::has_prefix(field.name, HIDDEN@) {
        Ok(FieldDefaultView::Absent)
    } else {
        default_from(field.attrs, 0)
    }
}

proof fn lemma_flagged_err(items: Seq<MetaItemView>, keyword: Seq<char>, n: nat, m: nat)
    requires
        n <= m,
        flagged(items, keyword, n) is Err,
    ensures
        flagged(items, keyword, m) == flagged(items, keyword, n),
    decreases m,
{
    if n < m {
        lemma_flagged_err(items, keyword, n, (m - 1) as nat);
    }
}

proof fn lemma_default_err(items: Seq<MetaItemView>, n: nat, m: nat)
    requires
        n <= m,
        default_of(items, n) is Err,
    ensures
        default_of(items, m) == default_of(items, n),
    decreases m,
{
    if n < m {
        lemma_default_err(items, n, (m - 1) as nat);
    }
}

/// Tells whether an attribute's arguments hold the given bare keyword.
pub fn read_flag(parsed: &MetaItems, keyword: &str) -> (flag: Result<bool, String>)
    ensures
        match flag {
            Ok(found) => attr_flag(parsed@, keyword@) == Ok::<_, Seq<char>>(found),
            Err(message) => attr_flag(parsed@, keyword@) == Err::<bool, _>(message@),
        },
{
    let ghost items = parsed@.items;
    let mut found = false;
    for i in 0..parsed.items.len()
        invariant
            items == parsed@.items,
            flagged(items, keyword@, i as nat) == Ok::<_, Seq<char>>(found),
    {
        let item = &parsed.items[i];
        assert(items[i as int] == item@);
        if named(&item.name, keyword) {
            match item.value {
                MetaValue::Bare => {
                    found = true;
                },
                _ => {
                    proof {
                        lemma_flagged_err(items, keyword@, (i + 1) as nat, items.len());
                    }
                    return Err(EXPECTED_COMMA.to_owned());
                },
            }
        }
    }
    match &parsed.error {
        Some(message) => Err(message.clone()),
        None => Ok(found),
    }
}

/// Tells whether a field's attributes hold the given bare keyword.
pub fn parse_flag(field: &FieldParts, keyword: &str) -> (flag: Result<bool, String>)
    ensures
        match flag {
            Ok(found) => field_flag(field@, keyword@) == Ok::<_, Seq<char>>(found),
            Err(message) => field_flag(field@, keyword@) == Err::<bool, _>(message@),
        },
{
    if starts_with(field.name.as_str(), HIDDEN) {
        return Ok(false);
    }
    let ghost attrs = field@.attrs;
    for i in 0..field.attrs.len()
        invariant
            attrs == field@.attrs,
            flag_from(attrs, keyword@, 0) == flag_from(attrs, keyword@, i as int),
            !crate::text::has_prefix(field@.name, HIDDEN@),
    {
        assert(attrs[i as int] == field.attrs@[i as int]@);
        match read_flag(&parse_attr(Context::Flag, field.attrs[i].as_str()), keyword) {
            Err(message) => {
                return Err(message);
            },
            Ok(true) => {
                return Ok(true);
            },
            Ok(false) => {},
        }
    }
    Ok(false)
}

/// Reads the default that an attribute's arguments name.
pub fn read_default(parsed: &MetaItems) -> (default: Result<FieldDefault, String>)
    ensures
        match default {
            Ok(found) => attr_default(parsed@) == Ok::<_, Seq<char>>(found@),
            Err(message) => attr_default(parsed@) == Err::<FieldDefaultView, _>(message@),
        },
{
    let ghost items = parsed@.items;
    let mut found = FieldDefault::Absent;
    for i in 0..parsed.items.len()
        invariant
            items == parsed@.items,
            default_of(items, i as nat) == Ok::<_, Seq<char>>(found@),
    {
        let item = &parsed.items[i];
        assert(items[i as int] == item@);
        let ours = named(&item.name, DEFAULT);
        match &item.value {
            MetaValue::Bare => {
                if ours {
                    found = FieldDefault::Trait;
                }
            },
            MetaValue::Assigned { expr } => {
                if !ours {
                    proof {
                        lemma_default_err(items, (i + 1) as nat, items.len());
                    }
                    return Err(EXPECTED_COMMA.to_owned());
                }
                found = FieldDefault::Given { expr: expr.clone() };
            },
            MetaValue::List { .. } => {
                proof {
                    lemma_default_err(items, (i + 1) as nat, items.len());
                }
                return Err(EXPECTED_COMMA.to_owned());
            },
        }
    }
    match &parsed.error {
        Some(message) => Err(message.clone()),
        None => Ok(found),
    }
}

/// Reads the default that a field's attributes name.
pub fn parse_default(field: &FieldParts) -> (default: Result<FieldDefault, String>)
    ensures
        match default {
            Ok(found) => field_default(field@) == Ok::<_, Seq<char>>(found@),
            Err(message) => field_default(field@) == Err::<FieldDefaultView, _>(message@),
        },
{
    if starts_with(field.name.as_str(), HIDDEN) {
        return Ok(FieldDefault::Absent);
    }
    let ghost attrs = field@.attrs;
    for i in 0..field.attrs.len()
        invariant
            attrs == field@.attrs,
            default_from(attrs, 0) == default_from(attrs, i as int),
            !crate::text::has_prefix(field@.name, HIDDEN@),
    {
        assert(attrs[i as int] == field.attrs@[i as int]@);
        match read_default(&parse_attr(Context::Default, field.attrs[i].as_str())) {
            Err(message) => {
                return Err(message);
            },
            Ok(FieldDefault::Absent) => {},
            Ok(found) => {
                return Ok(found);
            },
        }
    }
    Ok(FieldDefault::Absent)
}

} // verus!
