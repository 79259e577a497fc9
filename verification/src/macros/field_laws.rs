//! What holds of the arguments of every service and of its fields.

use crate::macros::attr_laws::lemma_last_assigned;
use crate::macros::attrs::{Context, MetaItemView, MetaItemsView, MetaValueView};
use crate::macros::fields::{FieldDefaultView, ServiceArgsView};
use crate::macros::service::{ServiceFieldView, ServiceView};
use crate::macros::syntax::{FieldPartsView, InputPartsView, Shape, TreeView};
use vstd::prelude::*;

verus! {

/// A capacity is a positive integer literal that fits in a `usize`; zero is
/// refused, and so is anything that is no integer literal.
pub proof fn law_capacity(expr: Seq<char>)
    ensures
        crate::macros::fields::capacity(expr) matches Ok(n) ==> n >= 1
            && crate::macros::syntax::integer(expr) == Some(Ok::<u64, Seq<char>>(n as u64)),
        crate::macros::syntax::lexed(expr) matches Some(trees) && trees.len() == 1
            && crate::macros::syntax::integer(expr) == Some(Ok::<u64, Seq<char>>(0))
            ==> crate::macros::fields::capacity(expr) == Err::<usize, Seq<char>>(
            "capacity must be at least 1"@,
        ),
        crate::macros::syntax::integer(expr) is None ==> crate::macros::fields::capacity(expr)
            == Err::<usize, Seq<char>>("expected an integer literal"@),
        crate::macros::syntax::lexed(expr) matches Some(trees) && trees.len() == 1 && (
        crate::macros::syntax::integer(expr) matches Some(Ok(n)) && 1 <= n <= usize::MAX)
            ==> crate::macros::fields::capacity(expr) is Ok,
{
}

/// Whether a capacity is the one that the last argument of a name assigns
/// among the first `n`, and the usual one where no argument has the name.
pub open spec fn is_last_capacity(
    items: Seq<MetaItemView>,
    n: nat,
    name: Seq<char>,
    capacity: usize,
) -> bool {
    ||| capacity == 256 && !crate::macros::attr_laws::is_named(items, n, name)
    ||| exists|expr: Seq<char>|
        #[trigger] crate::macros::attr_laws::is_last_assigned(items, n, name, Some(expr))
            && crate::macros::fields::capacity(expr) == Ok::<usize, Seq<char>>(capacity)
}

/// Whether a view type is the one that the last argument `view` assigns among
/// the first `n`, and none where no argument has the name.
pub open spec fn is_last_view(items: Seq<MetaItemView>, n: nat, view: Option<Seq<char>>) -> bool {
    match view {
        None => !crate::macros::attr_laws::is_named(items, n, "view"@),
        Some(ty) => exists|expr: Seq<char>|
            #[trigger] crate::macros::attr_laws::is_last_assigned(items, n, "view"@, Some(expr))
                && (crate::macros::syntax::typed(expr) matches Ok(parts) && parts.text == ty),
    }
}

proof fn lemma_argument_names()
    ensures
        "view"@ != "command_capacity"@,
        "view"@ != "event_capacity"@,
        "command_capacity"@ != "event_capacity"@,
{
    reveal_strlit("view");
    reveal_strlit("command_capacity");
    reveal_strlit("event_capacity");
    assert("view"@.len() == 4);
    assert("command_capacity"@.len() == 16);
    assert("event_capacity"@.len() == 14);
}

proof fn lemma_capacity_step(
    items: Seq<MetaItemView>,
    n: nat,
    name: Seq<char>,
    before: usize,
    after: usize,
)
    requires
        0 < n <= items.len(),
        is_last_capacity(items, (n - 1) as nat, name, before),
        items[n - 1].name != name ==> after == before,
        items[n - 1].name == name ==> (items[n - 1].value matches MetaValueView::Assigned { expr }
            && crate::macros::fields::capacity(expr) == Ok::<usize, Seq<char>>(after)),
    ensures
        is_last_capacity(items, n, name, after),
{
    let m = (n - 1) as nat;
    if items[n - 1].name == name {
        let expr = items[n - 1].value->expr;
        assert(items[n - 1] == (MetaItemView { name, value: MetaValueView::Assigned { expr } }));
        assert(crate::macros::attr_laws::is_last_assigned(items, n, name, Some(expr)));
    } else if !crate::macros::attr_laws::is_named(items, m, name) {
        assert(crate::macros::attr_laws::is_last_assigned(items, m, name, None));
        lemma_last_assigned(items, n, name, None);
        if !(before == 256) {
            let expr = choose|expr: Seq<char>|
                #[trigger] crate::macros::attr_laws::is_last_assigned(items, m, name, Some(expr))
                    && crate::macros::fields::capacity(expr) == Ok::<usize, Seq<char>>(before);
            lemma_last_assigned(items, n, name, Some(expr));
        }
    } else {
        let expr = choose|expr: Seq<char>|
            #[trigger] crate::macros::attr_laws::is_last_assigned(items, m, name, Some(expr))
                && crate::macros::fields::capacity(expr) == Ok::<usize, Seq<char>>(before);
        lemma_last_assigned(items, n, name, Some(expr));
    }
}

/// A service's view type and capacities are those that its attribute assigns,
/// the last of each; without them it has no view, and either capacity is the
/// usual one. Every argument assigns one of the three.
pub proof fn law_service_arguments(items: Seq<MetaItemView>, n: nat, args: ServiceArgsView)
    requires
        n <= items.len(),
        crate::macros::fields::args_of(items, n) == Ok::<ServiceArgsView, Seq<char>>(args),
    ensures
        is_last_view(items, n, args.view_type),
        is_last_capacity(items, n, "command_capacity"@, args.command_capacity),
        is_last_capacity(items, n, "event_capacity"@, args.event_capacity),
        args.command_capacity >= 1,
        args.event_capacity >= 1,
        forall|i: int|
            0 <= i < n ==> (#[trigger] items[i]).value is Assigned && (items[i].name == "view"@
                || items[i].name == "command_capacity"@ || items[i].name == "event_capacity"@),
    decreases n,
{
    lemma_argument_names();
    if n > 0 {
        let m = (n - 1) as nat;
        let before = crate::macros::fields::args_of(items, m)->Ok_0;
        law_service_arguments(items, m, before);
        let item = items[n - 1];
        let expr = item.value->expr;
        lemma_capacity_step(
            items,
            n,
            "command_capacity"@,
            before.command_capacity,
            args.command_capacity,
        );
        lemma_capacity_step(items, n, "event_capacity"@, before.event_capacity, args.event_capacity);
        if item.name == "view"@ {
            assert(item == (MetaItemView {
                name: "view"@,
                value: MetaValueView::Assigned { expr },
            }));
            assert(crate::macros::attr_laws::is_last_assigned(items, n, "view"@, Some(expr)));
        } else {
            match before.view_type {
                None => {
                    lemma_last_assigned(items, n, "view"@, None);
                },
                Some(ty) => {
                    let old_expr = choose|e: Seq<char>|
                        #[trigger] crate::macros::attr_laws::is_last_assigned(
                            items,
                            m,
                            "view"@,
                            Some(e),
                        ) && (crate::macros::syntax::typed(e) matches Ok(parts) && parts.text == ty);
                    lemma_last_assigned(items, n, "view"@, Some(old_expr));
                },
            }
        }
    }
}

/// A malformed argument of the service attribute is refused before any other
/// is looked at.
pub proof fn law_malformed_service_arguments(parsed: MetaItemsView)
    ensures
        parsed.error matches Some(message) ==> crate::macros::fields::service_args(parsed) == Err::<
            ServiceArgsView,
            Seq<char>,
        >(message),
        parsed.error is None ==> crate::macros::fields::service_args(parsed)
            == crate::macros::fields::args_of(parsed.items, parsed.items.len()),
{
}

proof fn lemma_flagged(items: Seq<MetaItemView>, keyword: Seq<char>, n: nat)
    requires
        n <= items.len(),
    ensures
        crate::macros::fields::flagged(items, keyword, n) matches Ok(found) ==> (found
            <==> crate::macros::attr_laws::is_named(items, n, keyword)),
        (forall|i: int|
            0 <= i < n && (#[trigger] items[i]).name == keyword ==> items[i].value is Bare)
            <==> crate::macros::fields::flagged(items, keyword, n) is Ok,
    decreases n,
{
    if n > 0 {
        let m = (n - 1) as nat;
        lemma_flagged(items, keyword, m);
        if crate::macros::attr_laws::is_named(items, m, keyword) {
            let i = choose|i: int| 0 <= i < m && (#[trigger] items[i]).name == keyword;
            assert(items[i].name == keyword);
        }
        if crate::macros::fields::flagged(items, keyword, m) is Ok && items[n - 1].name
            == keyword {
            assert(items[m as int].name == keyword);
        }
    }
}

/// An attribute holds a keyword exactly where one of its arguments is it.
pub proof fn law_attribute_flag(parsed: MetaItemsView, keyword: Seq<char>, found: bool)
    requires
        crate::macros::fields::attr_flag(parsed, keyword) == Ok::<bool, Seq<char>>(found),
    ensures
        found <==> crate::macros::attr_laws::is_named(parsed.items, parsed.items.len(), keyword),
        parsed.error is None,
{
    lemma_flagged(parsed.items, keyword, parsed.items.len());
}

proof fn lemma_flag_from(attrs: Seq<Seq<char>>, keyword: Seq<char>, i: int, k: int)
    requires
        0 <= i <= k <= attrs.len(),
        forall|j: int|
            i <= j < k ==> crate::macros::fields::attr_flag(
                crate::macros::attrs::attr_items(Context::Flag, #[trigger] attrs[j]),
                keyword,
            ) == Ok::<bool, Seq<char>>(false),
    ensures
        crate::macros::fields::flag_from(attrs, keyword, i) == crate::macros::fields::flag_from(
            attrs,
            keyword,
            k,
        ),
    decreases k - i,
{
    if i < k {
        assert(crate::macros::fields::attr_flag(
            crate::macros::attrs::attr_items(Context::Flag, attrs[i]),
            keyword,
        ) == Ok::<bool, Seq<char>>(false));
        lemma_flag_from(attrs, keyword, i + 1, k);
    }
}

/// A field has a role exactly where one of its attributes holds the role's
/// keyword; the first that does decides, and a hidden field has none.
pub proof fn law_field_flag(field: FieldPartsView, keyword: Seq<char>, k: int)
    requires
        0 <= k <= field.attrs.len(),
        !crate::text::has_prefix(field.name, "__rillet_"@),
        forall|j: int|
            0 <= j < k ==> crate::macros::fields::attr_flag(
                crate::macros::attrs::attr_items(Context::Flag, #[trigger] field.attrs[j]),
                keyword,
            ) == Ok::<bool, Seq<char>>(false),
        k < field.attrs.len() ==> crate::macros::fields::attr_flag(
            crate::macros::attrs::attr_items(Context::Flag, field.attrs[k]),
            keyword,
        ) != Ok::<bool, Seq<char>>(false),
    ensures
        crate::macros::fields::field_flag(field, keyword) == (if k < field.attrs.len() {
            crate::macros::fields::attr_flag(
                crate::macros::attrs::attr_items(Context::Flag, field.attrs[k]),
                keyword,
            )
        } else {
            Ok::<bool, Seq<char>>(false)
        }),
{
    lemma_flag_from(field.attrs, keyword, 0, k);
}

/// A hidden field has no role and no default, whatever its attributes say.
pub proof fn law_hidden_fields_have_no_role(field: FieldPartsView, keyword: Seq<char>)
    requires
        crate::text::has_prefix(field.name, "__rillet_"@),
    ensures
        crate::macros::fields::field_flag(field, keyword) == Ok::<bool, Seq<char>>(false),
        crate::macros::fields::field_default(field) == Ok::<FieldDefaultView, Seq<char>>(
            FieldDefaultView::Absent,
        ),
{
}

/// An attribute names a default exactly where one of its arguments is
/// `default`: the type's own where nothing stands behind the last of them,
/// and otherwise the expression that is assigned.
pub proof fn law_attribute_default(items: Seq<MetaItemView>, n: nat, found: FieldDefaultView)
    requires
        n <= items.len(),
        crate::macros::fields::default_of(items, n) == Ok::<FieldDefaultView, Seq<char>>(found),
    ensures
        found is Absent <==> !crate::macros::attr_laws::is_named(items, n, "default"@),
        forall|k: int|
            0 <= k < n && (#[trigger] items[k]).name == "default"@ && (forall|j: int|
                k < j < n ==> (#[trigger] items[j]).name != "default"@) ==> found == (
            match items[k].value {
                MetaValueView::Assigned { expr } => FieldDefaultView::Given { expr },
                _ => FieldDefaultView::Trait,
            }),
    decreases n,
{
    if n > 0 {
        let m = (n - 1) as nat;
        let before = crate::macros::fields::default_of(items, m)->Ok_0;
        law_attribute_default(items, m, before);
        if crate::macros::attr_laws::is_named(items, m, "default"@) {
            let i = choose|i: int| 0 <= i < m && (#[trigger] items[i]).name == "default"@;
            assert(items[i].name == "default"@);
        }
        if items[n - 1].name == "default"@ {
            assert(items[m as int].name == "default"@);
        }
        assert forall|k: int|
            0 <= k < n && (#[trigger] items[k]).name == "default"@ && (forall|j: int|
                k < j < n ==> (#[trigger] items[j]).name != "default"@) implies found == (
        match items[k].value {
            MetaValueView::Assigned { expr } => FieldDefaultView::Given { expr },
            _ => FieldDefaultView::Trait,
        }) by {
            if k < m {
                assert(items[m as int].name != "default"@);
            }
        }
    }
}

proof fn lemma_default_from(attrs: Seq<Seq<char>>, i: int, k: int)
    requires
        0 <= i <= k <= attrs.len(),
        forall|j: int|
            i <= j < k ==> crate::macros::fields::attr_default(
                crate::macros::attrs::attr_items(Context::Default, #[trigger] attrs[j]),
            ) == Ok::<FieldDefaultView, Seq<char>>(FieldDefaultView::Absent),
    ensures
        crate::macros::fields::default_from(attrs, i) == crate::macros::fields::default_from(
            attrs,
            k,
        ),
    decreases k - i,
{
    if i < k {
        assert(crate::macros::fields::attr_default(
            crate::macros::attrs::attr_items(Context::Default, attrs[i]),
        ) == Ok::<FieldDefaultView, Seq<char>>(FieldDefaultView::Absent));
        lemma_default_from(attrs, i + 1, k);
    }
}

/// A field's default is the one that the first of its attributes names that
/// names any.
pub proof fn law_field_default(field: FieldPartsView, k: int)
    requires
        0 <= k <= field.attrs.len(),
        !crate::text::has_prefix(field.name, "__rillet_"@),
        forall|j: int|
            0 <= j < k ==> crate::macros::fields::attr_default(
                crate::macros::attrs::attr_items(Context::Default, #[trigger] field.attrs[j]),
            ) == Ok::<FieldDefaultView, Seq<char>>(FieldDefaultView::Absent),
        k < field.attrs.len() ==> crate::macros::fields::attr_default(
            crate::macros::attrs::attr_items(Context::Default, field.attrs[k]),
        ) != Ok::<FieldDefaultView, Seq<char>>(FieldDefaultView::Absent),
    ensures
        crate::macros::fields::field_default(field) == (if k < field.attrs.len() {
            crate::macros::fields::attr_default(
                crate::macros::attrs::attr_items(Context::Default, field.attrs[k]),
            )
        } else {
            Ok::<FieldDefaultView, Seq<char>>(FieldDefaultView::Absent)
        }),
{
    lemma_default_from(field.attrs, 0, k);
}

/// Whether a comma stands in front of the number `k` of the names that are
/// listed from a position on.
pub open spec fn is_separated(trees: Seq<TreeView>, i: int, k: int) -> bool {
    crate::macros::attrs::is_punct(trees, i + 2 * k - 1, ',')
}

/// A list of events names the identifiers between its commas, in their order
/// and none besides.
pub proof fn law_listed_events(trees: Seq<TreeView>, i: int, events: Seq<Seq<char>>)
    requires
        0 <= i <= trees.len() + 1,
        crate::macros::fields::events_at(trees, i) == Ok::<Seq<Seq<char>>, Seq<char>>(events),
    ensures
        i <= trees.len() ==> events.len() == (trees.len() - i + 1) / 2,
        forall|k: int|
            0 <= k < events.len() ==> crate::macros::attrs::identifier_at(trees, i + 2 * k) == Some(
                #[trigger] events[k],
            ),
        forall|k: int|
            0 < k < events.len() ==> #[trigger] is_separated(trees, i, k),
    decreases trees.len() - i,
{
    if 0 <= i < trees.len() && i + 1 < trees.len() {
        let rest = crate::macros::fields::events_at(trees, i + 2)->Ok_0;
        law_listed_events(trees, i + 2, rest);
        assert(events == seq![events[0]] + rest);
        assert forall|k: int| 0 <= k < events.len() implies crate::macros::attrs::identifier_at(
            trees,
            i + 2 * k,
        ) == Some(#[trigger] events[k]) by {
            if k > 0 {
                assert(events[k] == rest[k - 1]);
                assert(i + 2 + 2 * (k - 1) == i + 2 * k);
            }
        }
        assert forall|k: int| 0 < k < events.len() implies #[trigger] is_separated(
            trees,
            i,
            k,
        ) by {
            if k > 1 {
                assert(is_separated(trees, i + 2, k - 1));
                assert(i + 2 + 2 * (k - 1) - 1 == i + 2 * k - 1);
            } else {
                assert(i + 2 * k - 1 == i + 1);
            }
        }
    } else {
        assert(events.len() <= 1);
    }
}

/// The events of a service are those that its `emits` arguments list, one
/// list behind the other.
pub proof fn law_emitted_events(items: Seq<MetaItemView>, n: nat, events: Seq<Seq<char>>)
    requires
        n <= items.len(),
        crate::macros::fields::items_events(items, n) == Ok::<Seq<Seq<char>>, Seq<char>>(events),
    ensures
        events == Seq::new(
            n,
            |i: int|
                if items[i].name == "emits"@ {
                    crate::macros::fields::events_of(items[i].value->inner)->Ok_0
                } else {
                    Seq::<Seq<char>>::empty()
                },
        ).flatten_alt(),
        forall|i: int| 0 <= i < n && (#[trigger] items[i]).name == "emits"@ ==> items[i].value is List,
    decreases n,
{
    let parts = Seq::new(
        n,
        |i: int|
            if items[i].name == "emits"@ {
                crate::macros::fields::events_of(items[i].value->inner)->Ok_0
            } else {
                Seq::<Seq<char>>::empty()
            },
    );
    if n > 0 {
        let m = (n - 1) as nat;
        law_emitted_events(items, m, crate::macros::fields::items_events(items, m)->Ok_0);
        assert(parts.drop_last() =~= Seq::new(
            m,
            |i: int|
                if items[i].name == "emits"@ {
                    crate::macros::fields::events_of(items[i].value->inner)->Ok_0
                } else {
                    Seq::<Seq<char>>::empty()
                },
        ));
    }
}

proof fn lemma_flags(fields: Seq<FieldPartsView>, keyword: Seq<char>, n: nat)
    requires
        n <= fields.len(),
        crate::macros::service::flags(fields, keyword, n) is Ok,
    ensures
        crate::macros::service::flags(fields, keyword, n)->Ok_0.len() == n,
        forall|i: int|
            0 <= i < n ==> crate::macros::fields::field_flag(#[trigger] fields[i], keyword) == Ok::<
                bool,
                Seq<char>,
            >(crate::macros::service::flags(fields, keyword, n)->Ok_0[i]),
    decreases n,
{
    if n > 0 {
        lemma_flags(fields, keyword, (n - 1) as nat);
    }
}

proof fn lemma_defaults(fields: Seq<FieldPartsView>, n: nat)
    requires
        n <= fields.len(),
        crate::macros::service::defaults(fields, n) is Ok,
    ensures
        crate::macros::service::defaults(fields, n)->Ok_0.len() == n,
        forall|i: int|
            0 <= i < n ==> crate::macros::fields::field_default(#[trigger] fields[i]) == Ok::<
                FieldDefaultView,
                Seq<char>,
            >(crate::macros::service::defaults(fields, n)->Ok_0[i]),
    decreases n,
{
    if n > 0 {
        lemma_defaults(fields, (n - 1) as nat);
    }
}

/// A service has the fields that its struct declares, in their order and with
/// their names, types and visibility; a field has a getter where its
/// attributes hold `get`, is a gauge where they hold `gauge`, and has the
/// default that they name.
pub proof fn law_service_fields(fields: Seq<FieldPartsView>, made: Seq<ServiceFieldView>, i: int)
    requires
        crate::macros::service::service_fields(fields) == Ok::<Seq<ServiceFieldView>, Seq<char>>(
            made,
        ),
        0 <= i < fields.len(),
    ensures
        made.len() == fields.len(),
        made[i].name == fields[i].name,
        made[i].ty == fields[i].ty,
        made[i].vis == fields[i].vis,
        crate::macros::fields::field_flag(fields[i], "get"@) == Ok::<bool, Seq<char>>(
            made[i].getter,
        ),
        crate::macros::fields::field_flag(fields[i], "gauge"@) == Ok::<bool, Seq<char>>(
            made[i].gauge,
        ),
        crate::macros::fields::field_default(fields[i]) == Ok::<FieldDefaultView, Seq<char>>(
            made[i].default,
        ),
{
    lemma_flags(fields, "get"@, fields.len());
    lemma_flags(fields, "gauge"@, fields.len());
    lemma_defaults(fields, fields.len());
}

/// A struct with named fields expands, where its arguments, events and fields
/// are in order, to itself and the code around a service of its name, with
/// the view type, the capacities, the events and the fields that were read;
/// any other item is refused.
pub proof fn law_service_expands(
    attr: Seq<char>,
    item: Seq<char>,
    args: ServiceArgsView,
    input: InputPartsView,
    events: Seq<Seq<char>>,
)
    requires
        crate::macros::fields::service_args(
            crate::macros::attrs::items(Context::Service, attr),
        ) == Ok::<ServiceArgsView, Seq<char>>(args),
        crate::macros::syntax::input(item) == Ok::<InputPartsView, Seq<char>>(input),
        crate::macros::fields::emitted(
            crate::macros::attrs::attrs_items(Context::Struct, input.attrs),
        ) == Ok::<Seq<Seq<char>>, Seq<char>>(events),
    ensures
        input.shape == Shape::Named ==> (match crate::macros::service::service_fields(
            crate::macros::syntax::fields(item),
        ) {
            Ok(fields) => ({
                let service = ServiceView {
                    name: input.name,
                    view_type: args.view_type,
                    command_capacity: args.command_capacity,
                    event_capacity: args.event_capacity,
                    events,
                    fields,
                };
                crate::macros::service::expanded(attr, item) == Ok::<Seq<char>, Seq<char>>(
                    crate::macros::service::struct_text(input, service)
                        + crate::macros::service::service_code(service),
                )
            }),
            Err(message) => crate::macros::service::expanded(attr, item) == Err::<
                Seq<char>,
                Seq<char>,
            >(message),
        }),
        input.shape == Shape::Unnamed ==> crate::macros::service::expanded(attr, item) == Err::<
            Seq<char>,
            Seq<char>,
        >("rillet::service can only be applied to structs with named fields"@),
        input.shape != Shape::Named && input.shape != Shape::Unnamed
            ==> crate::macros::service::expanded(attr, item) == Err::<Seq<char>, Seq<char>>(
            "rillet::service can only be applied to structs"@,
        ),
{
}

/// An argument of the service attribute that assigns nothing or has another
/// name is refused, and so is a capacity that no `usize` holds.
pub proof fn law_unknown_service_arguments_are_refused(
    args: ServiceArgsView,
    item: MetaItemView,
    expr: Seq<char>,
)
    ensures
        !(item.value is Assigned) || item.name != "view"@ && item.name != "command_capacity"@
            && item.name != "event_capacity"@ ==> crate::macros::fields::with_arg(args, item)
            == Err::<ServiceArgsView, Seq<char>>(
            "expected `view = ViewType`, `command_capacity = N`, or `event_capacity = N`"@,
        ),
        crate::macros::syntax::lexed(expr) matches Some(trees) && trees.len() == 1 && (
        crate::macros::syntax::integer(expr) matches Some(Ok(n)) && n > usize::MAX)
            ==> crate::macros::fields::capacity(expr) == Err::<usize, Seq<char>>(
            "number too large to fit in target type"@,
        ),
{
}

/// A role's keyword, and `default` with a list behind it, are refused where a
/// comma is missing.
pub proof fn law_keywords_take_no_value(
    items: Seq<MetaItemView>,
    keyword: Seq<char>,
    n: nat,
)
    requires
        n < items.len(),
    ensures
        crate::macros::fields::flagged(items, keyword, n) is Ok && items[n as int].name == keyword
            && !(items[n as int].value is Bare) ==> crate::macros::fields::flagged(
            items,
            keyword,
            n + 1,
        ) == Err::<bool, Seq<char>>("expected `,`"@),
        crate::macros::fields::default_of(items, n) is Ok && items[n as int].name == "default"@
            && items[n as int].value is List ==> crate::macros::fields::default_of(items, n + 1)
            == Err::<FieldDefaultView, Seq<char>>("expected `,`"@),
{
}

/// What an attribute's arguments come to counts only where nothing is wrong
/// with any of them.
pub proof fn law_malformed_arguments_are_refused(parsed: MetaItemsView, keyword: Seq<char>)
    ensures
        crate::macros::fields::emitted(parsed) matches Ok(events) ==> parsed.error is None
            && crate::macros::fields::items_events(parsed.items, parsed.items.len()) == Ok::<
            Seq<Seq<char>>,
            Seq<char>,
        >(events),
        crate::macros::fields::attr_default(parsed) matches Ok(found) ==> parsed.error is None
            && crate::macros::fields::default_of(parsed.items, parsed.items.len()) == Ok::<
            FieldDefaultView,
            Seq<char>,
        >(found),
        crate::macros::fields::attr_flag(parsed, keyword) is Ok ==> parsed.error is None,
        crate::macros::methods::method_roles(parsed) matches Ok(roles) ==> parsed.error is None
            && crate::macros::methods::roles_of(parsed.items, parsed.items.len()) == Ok::<
            crate::macros::methods::MethodAttrsView,
            Seq<char>,
        >(roles),
        parsed.error is Some && crate::macros::fields::items_events(
            parsed.items,
            parsed.items.len(),
        ) is Ok ==> crate::macros::fields::emitted(parsed) == Err::<Seq<Seq<char>>, Seq<char>>(
            parsed.error->Some_0,
        ),
        parsed.error is None && crate::macros::fields::items_events(
            parsed.items,
            parsed.items.len(),
        ) is Ok ==> crate::macros::fields::emitted(parsed) is Ok,
        parsed.error is None && crate::macros::fields::default_of(
            parsed.items,
            parsed.items.len(),
        ) is Ok ==> crate::macros::fields::attr_default(parsed) is Ok,
        parsed.error is None && crate::macros::methods::roles_of(
            parsed.items,
            parsed.items.len(),
        ) is Ok ==> crate::macros::methods::method_roles(parsed) is Ok,
{
}

/// What the code around a service holds, the expansion of its struct holds.
pub proof fn law_service_expansion_holds_its_code(
    input: InputPartsView,
    service: ServiceView,
    part: Seq<char>,
)
    requires
        crate::text::holds(crate::macros::service::service_code(service), part),
    ensures
        crate::text::holds(
            crate::macros::service::struct_text(input, service)
                + crate::macros::service::service_code(service),
            part,
        ),
{
    let start = crate::macros::service::struct_text(input, service);
    let code = crate::macros::service::service_code(service);
    crate::text::lemma_holds_ends(start, code);
    crate::text::lemma_holds_through(start + code, code, part);
}

} // verus!
