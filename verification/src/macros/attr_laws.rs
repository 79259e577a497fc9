//! What holds of the arguments that attributes are read into.

use crate::macros::attrs::{Context, MetaItemView, MetaItemsView, MetaValueView, Shape};
use crate::macros::methods::{MethodAttrsView, OpRoleView, ParamView};
use crate::macros::syntax::{ArgView, TreeKind, TreeView};
use vstd::prelude::*;

verus! {

/// The token trees that an argument is written with.
pub open spec fn written(item: MetaItemView) -> Seq<TreeView> {
    let name = TreeView { kind: TreeKind::Ident, text: item.name };
    match item.value {
        MetaValueView::Bare => seq![name],
        MetaValueView::Assigned { expr } => seq![
            name,
            TreeView { kind: TreeKind::Alone, text: seq!['='] },
            TreeView { kind: TreeKind::Ident, text: expr },
        ],
        MetaValueView::List { inner } => seq![
            name,
            TreeView { kind: TreeKind::Parens, text: inner },
        ],
    }
}

/// The token trees that arguments are written with, a comma between any two.
pub open spec fn all_written(items: Seq<MetaItemView>) -> Seq<TreeView>
    decreases items.len(),
{
    if items.len() == 0 {
        seq![]
    } else if items.len() == 1 {
        written(items[0])
    } else {
        written(items[0]) + seq![TreeView { kind: TreeKind::Alone, text: seq![','] }] + all_written(
            items.skip(1),
        )
    }
}

/// Whether an argument of a method's attribute is of a form that its name
/// allows: a field behind `from` and `watch`, a list or nothing behind `op`,
/// and nothing behind any other name.
pub open spec fn is_method_argument(item: MetaItemView) -> bool {
    match item.value {
        MetaValueView::Bare => item.name != "from"@ && item.name != "watch"@,
        MetaValueView::Assigned { expr } => (item.name == "from"@ || item.name == "watch"@)
            && crate::macros::syntax::identifier(expr) == Some(expr),
        MetaValueView::List { .. } => item.name == "op"@,
    }
}

proof fn lemma_one_argument(trees: Seq<TreeView>, i: int, item: MetaItemView)
    requires
        is_method_argument(item),
        0 <= i,
        i + written(item).len() <= trees.len(),
        trees.subrange(i, i + written(item).len()) == written(item),
        i + written(item).len() < trees.len() ==> trees[i + written(item).len()] == (TreeView {
            kind: TreeKind::Alone,
            text: seq![','],
        }),
    ensures
        crate::macros::attrs::item_at(Context::Method, trees, i) == Ok::<
            (MetaItemView, int),
            Seq<char>,
        >((item, i + written(item).len())),
{
    reveal_strlit("from");
    reveal_strlit("watch");
    reveal_strlit("op");
    assert("from"@.len() == 4);
    assert("watch"@.len() == 5);
    assert("op"@.len() == 2);
    let part = trees.subrange(i, i + written(item).len());
    assert(trees[i] == part[0]);
    assert(seq![','][0] != seq!['='][0]);
    assert(seq![','][0] != seq![':'][0]);
    assert(seq!['='][0] != seq![':'][0]);
    if item.value is Assigned {
        assert(trees[i + 1] == part[1]);
        assert(trees[i + 2] == part[2]);
    } else if item.value is List {
        assert(trees[i + 1] == part[1]);
    }
    assert(!crate::macros::attrs::is_colons(trees, i));
    assert(!crate::macros::attrs::is_colons(trees, i + 1));
}

proof fn lemma_arguments(before: Seq<TreeView>, items: Seq<MetaItemView>)
    requires
        forall|k: int| 0 <= k < items.len() ==> is_method_argument(#[trigger] items[k]),
    ensures
        crate::macros::attrs::items_at(
            Context::Method,
            before + all_written(items),
            before.len() as int,
        ) == (MetaItemsView { items, error: None }),
    decreases items.len(),
{
    let trees = before + all_written(items);
    let i = before.len() as int;
    if items.len() == 0 {
        assert(items =~= seq![]);
    } else {
        let item = items[0];
        let n = written(item).len();
        assert(trees.subrange(i, i + n) =~= written(item));
        lemma_one_argument(trees, i, item);
        if items.len() == 1 {
            assert(items =~= seq![item]);
        } else {
            let comma = TreeView { kind: TreeKind::Alone, text: seq![','] };
            let more = before + written(item) + seq![comma];
            assert(trees =~= more + all_written(items.skip(1)));
            lemma_arguments(more, items.skip(1));
            assert(trees[i + n] == comma);
            lemma_written_is_there(items.skip(1));
            assert(items =~= seq![item] + items.skip(1));
        }
    }
}

proof fn lemma_written_is_there(items: Seq<MetaItemView>)
    requires
        items.len() > 0,
    ensures
        all_written(items).len() > 0,
{
}

/// Arguments that are written out are read back: the arguments of a method's
/// attribute, each in a form that its name allows and with commas between
/// them, are read in their order, and nothing is wrong with them.
pub proof fn law_written_arguments_are_read(text: Seq<char>, items: Seq<MetaItemView>)
    requires
        crate::macros::syntax::lexed(text) == Some(all_written(items)),
        forall|k: int| 0 <= k < items.len() ==> is_method_argument(#[trigger] items[k]),
    ensures
        crate::macros::attrs::items(Context::Method, text) == (MetaItemsView { items, error: None }),
{
    lemma_arguments(seq![], items);
    assert(Seq::<TreeView>::empty() + all_written(items) =~= all_written(items));
}

/// What may stand behind each name: a list of events behind `emits`, nothing
/// behind `get` and `gauge`, an expression or nothing behind `default`, a
/// field behind `from` and `watch`, a list or nothing behind `op`, a method
/// behind `execute`, an expression behind `timeout`, and anything in the
/// service attribute.
pub proof fn law_shapes(name: Seq<char>)
    ensures
        crate::macros::attrs::shape(Context::Service, name) == Shape::Open,
        crate::macros::attrs::shape(Context::Struct, name) == Shape::Bracketed <==> name
            == "emits"@,
        crate::macros::attrs::shape(Context::Struct, name) == Shape::Bare <==> name != "emits"@,
        crate::macros::attrs::shape(Context::Flag, name) == Shape::Bare <==> name == "get"@
            || name == "gauge"@,
        crate::macros::attrs::shape(Context::Flag, name) == Shape::Open <==> name != "get"@ && name
            != "gauge"@,
        crate::macros::attrs::shape(Context::Default, name) == Shape::Optional <==> name
            == "default"@,
        crate::macros::attrs::shape(Context::Default, name) == Shape::Bare <==> name
            != "default"@,
        crate::macros::attrs::shape(Context::Method, name) == Shape::Named <==> name == "from"@
            || name == "watch"@,
        crate::macros::attrs::shape(Context::Method, name) == Shape::Listed <==> name == "op"@,
        crate::macros::attrs::shape(Context::Method, name) == Shape::Bare <==> name != "from"@
            && name != "watch"@ && name != "op"@,
        crate::macros::attrs::shape(Context::Deferred, name) == Shape::Named <==> name
            == "execute"@,
        crate::macros::attrs::shape(Context::Deferred, name) == Shape::Value <==> name
            == "timeout"@,
        crate::macros::attrs::shape(Context::Deferred, name) == Shape::Bare <==> name
            != "execute"@ && name != "timeout"@,
{
    reveal_strlit("from");
    reveal_strlit("watch");
    reveal_strlit("op");
    assert("from"@.len() == 4);
    assert("watch"@.len() == 5);
    assert("op"@.len() == 2);
    reveal_strlit("execute");
    reveal_strlit("timeout");
    assert("execute"@[0] != "timeout"@[0]);
}

/// The macros' attributes are those whose path is `rillet` alone: an
/// attribute under any other path, and one whose path goes on, is someone
/// else's and says nothing to them.
pub proof fn law_other_attributes_are_not_read(
    context: Context,
    attr: Seq<char>,
    outer: Seq<TreeView>,
    inner: Seq<TreeView>,
)
    requires
        crate::macros::syntax::lexed(attr) == Some(outer),
        outer.len() > 0,
        crate::macros::syntax::lexed(outer.last().text) == Some(inner),
        inner.len() > 0,
    ensures
        inner[0].text != "rillet"@ ==> crate::macros::attrs::attr_items(context, attr) == (
        MetaItemsView { items: seq![], error: None }),
        inner.len() == 2 && inner[0] == (TreeView { kind: TreeKind::Ident, text: "rillet"@ })
            && inner[1].kind == TreeKind::Parens ==> crate::macros::attrs::attr_items(context, attr)
            == crate::macros::attrs::items(context, inner[1].text),
{
}

/// The arguments of several attributes are those of each in turn, as long as
/// nothing is wrong with any of them.
pub proof fn law_attributes_add_up(context: Context, attrs: Seq<Seq<char>>, n: nat)
    requires
        n <= attrs.len(),
        forall|k: int| 0 <= k < n ==> crate::macros::attrs::attr_items(context, #[trigger] attrs[k]).error is None,
    ensures
        crate::macros::attrs::all_items(context, attrs, n).error is None,
        crate::macros::attrs::all_items(context, attrs, n).items == Seq::new(
            n,
            |k: int| crate::macros::attrs::attr_items(context, attrs[k]).items,
        ).flatten_alt(),
    decreases n,
{
    let parts = Seq::new(n, |k: int| crate::macros::attrs::attr_items(context, attrs[k]).items);
    if n > 0 {
        let m = (n - 1) as nat;
        law_attributes_add_up(context, attrs, m);
        assert(parts.drop_last() =~= Seq::new(
            m,
            |k: int| crate::macros::attrs::attr_items(context, attrs[k]).items,
        ));
        assert(crate::macros::attrs::attr_items(context, attrs[n - 1]).error is None);
    }
}

/// What is wrong with the first malformed attribute is what is wrong with
/// all of them.
pub proof fn law_first_malformed_attribute(context: Context, attrs: Seq<Seq<char>>, k: int, n: nat)
    requires
        0 <= k < n <= attrs.len(),
        forall|j: int| 0 <= j < k ==> crate::macros::attrs::attr_items(context, #[trigger] attrs[j]).error is None,
        crate::macros::attrs::attr_items(context, attrs[k]).error is Some,
    ensures
        crate::macros::attrs::all_items(context, attrs, n).error
            == crate::macros::attrs::attr_items(context, attrs[k]).error,
    decreases n,
{
    if n == k + 1 {
        law_attributes_add_up(context, attrs, k as nat);
    } else {
        law_first_malformed_attribute(context, attrs, k, (n - 1) as nat);
    }
}

/// Whether one of the first `n` arguments has a name.
pub open spec fn is_named(items: Seq<MetaItemView>, n: nat, name: Seq<char>) -> bool {
    exists|i: int| 0 <= i < n && (#[trigger] items[i]).name == name
}

/// Whether a value is the one that the last argument of a name assigns among
/// the first `n`, and nothing where no argument has the name.
pub open spec fn is_last_assigned(
    items: Seq<MetaItemView>,
    n: nat,
    name: Seq<char>,
    value: Option<Seq<char>>,
) -> bool {
    match value {
        Some(expr) => exists|i: int|
            0 <= i < n && #[trigger] items[i] == (MetaItemView {
                name,
                value: MetaValueView::Assigned { expr },
            }) && forall|j: int| i < j < n ==> (#[trigger] items[j]).name != name,
        None => !is_named(items, n, name),
    }
}

pub proof fn lemma_last_assigned(
    items: Seq<MetaItemView>,
    n: nat,
    name: Seq<char>,
    before: Option<Seq<char>>,
)
    requires
        0 < n <= items.len(),
        is_last_assigned(items, (n - 1) as nat, name, before),
    ensures
        items[n - 1].name != name ==> is_last_assigned(items, n, name, before),
        items[n - 1].name == name ==> (items[n - 1].value matches MetaValueView::Assigned { expr }
            ==> is_last_assigned(items, n, name, Some(expr))),
{
    if items[n - 1].name != name {
        match before {
            Some(expr) => {
                let i = choose|i: int|
                    0 <= i < n - 1 && #[trigger] items[i] == (MetaItemView {
                        name,
                        value: MetaValueView::Assigned { expr },
                    }) && forall|j: int| i < j < n - 1 ==> (#[trigger] items[j]).name != name;
                assert(items[i].name == name);
            },
            None => {},
        }
    } else if let MetaValueView::Assigned { expr } = items[n - 1].value {
        assert(items[n - 1] == (MetaItemView { name, value: MetaValueView::Assigned { expr } }));
    }
}

/// Whether an argument of a method's attribute is one that the macros know,
/// in the form that they know it.
pub open spec fn is_known(item: MetaItemView) -> bool {
    let name = item.name;
    ||| (name == "command"@ || name == "direct"@ || name == "direct_mut"@ || name == "task"@)
        && item.value is Bare
    ||| name == "op"@ && !(item.value is Assigned)
    ||| (name == "from"@ || name == "watch"@) && item.value is Assigned
}

proof fn lemma_role_names()
    ensures
        "command"@ != "direct"@,
        "command"@ != "direct_mut"@,
        "command"@ != "task"@,
        "command"@ != "op"@,
        "command"@ != "from"@,
        "command"@ != "watch"@,
        "direct"@ != "direct_mut"@,
        "direct"@ != "task"@,
        "direct"@ != "op"@,
        "direct"@ != "from"@,
        "direct"@ != "watch"@,
        "direct_mut"@ != "task"@,
        "direct_mut"@ != "op"@,
        "direct_mut"@ != "from"@,
        "direct_mut"@ != "watch"@,
        "task"@ != "op"@,
        "task"@ != "from"@,
        "task"@ != "watch"@,
        "op"@ != "from"@,
        "op"@ != "watch"@,
        "from"@ != "watch"@,
{
    reveal_strlit("command");
    reveal_strlit("direct");
    reveal_strlit("direct_mut");
    reveal_strlit("task");
    reveal_strlit("op");
    reveal_strlit("from");
    reveal_strlit("watch");
    assert("command"@.len() == 7);
    assert("direct"@.len() == 6);
    assert("direct_mut"@.len() == 10);
    assert("task"@.len() == 4);
    assert("op"@.len() == 2);
    assert("from"@.len() == 4);
    assert("watch"@.len() == 5);
    assert("task"@[0] != "from"@[0]);
}

/// Where the arguments of a method's attributes are read without an error, a
/// method is a command, direct, direct_mut or a task exactly where an
/// argument says so, and an op exactly where one says `op`; its source of
/// events or views is the one that the last `from` or `watch` names; and
/// every argument is one that the macros know.
pub proof fn law_method_roles(items: Seq<MetaItemView>, n: nat, roles: MethodAttrsView)
    requires
        n <= items.len(),
        crate::macros::methods::roles_of(items, n) == Ok::<MethodAttrsView, Seq<char>>(roles),
    ensures
        roles.is_command <==> is_named(items, n, "command"@),
        roles.is_direct <==> is_named(items, n, "direct"@),
        roles.is_direct_mut <==> is_named(items, n, "direct_mut"@),
        roles.is_task <==> is_named(items, n, "task"@),
        roles.op is Some <==> is_named(items, n, "op"@),
        is_last_assigned(items, n, "from"@, roles.from_field),
        is_last_assigned(items, n, "watch"@, roles.watch_field),
        forall|i: int| 0 <= i < n ==> is_known(#[trigger] items[i]),
    decreases n,
{
    lemma_role_names();
    if n > 0 {
        let m = (n - 1) as nat;
        let before = crate::macros::methods::roles_of(items, m)->Ok_0;
        law_method_roles(items, m, before);
        assert(crate::macros::methods::with_item(before, items[n - 1]) == Ok::<
            MethodAttrsView,
            Seq<char>,
        >(roles));
        assert(is_known(items[n - 1]));
        lemma_last_assigned(items, n, "from"@, before.from_field);
        lemma_last_assigned(items, n, "watch"@, before.watch_field);
        lemma_named(items, n, "command"@);
        lemma_named(items, n, "direct"@);
        lemma_named(items, n, "direct_mut"@);
        lemma_named(items, n, "task"@);
        lemma_named(items, n, "op"@);
    }
}

proof fn lemma_named(items: Seq<MetaItemView>, n: nat, name: Seq<char>)
    requires
        0 < n <= items.len(),
    ensures
        is_named(items, n, name) <==> is_named(items, (n - 1) as nat, name) || items[n - 1].name
            == name,
{
    if is_named(items, (n - 1) as nat, name) {
        let i = choose|i: int| 0 <= i < n - 1 && (#[trigger] items[i]).name == name;
        assert(items[i].name == name);
    }
}

/// Where the last `op` of a method stands alone, the op is immediate; where
/// it has a list, the op is deferred as the list says.
pub proof fn law_last_op_counts(items: Seq<MetaItemView>, n: nat, roles: MethodAttrsView, k: int)
    requires
        0 <= k < n <= items.len(),
        crate::macros::methods::roles_of(items, n) == Ok::<MethodAttrsView, Seq<char>>(roles),
        items[k].name == "op"@,
        forall|j: int| k < j < n ==> (#[trigger] items[j]).name != "op"@,
    ensures
        items[k].value is Bare ==> roles.op == Some(OpRoleView::Immediate),
        items[k].value matches MetaValueView::List { inner } ==> crate::macros::methods::op_role(
            crate::macros::attrs::items(Context::Deferred, inner),
        ) == Ok::<OpRoleView, Seq<char>>(roles.op->Some_0) && roles.op is Some,
    decreases n,
{
    lemma_role_names();
    if k < n - 1 {
        let before = crate::macros::methods::roles_of(items, (n - 1) as nat)->Ok_0;
        law_last_op_counts(items, (n - 1) as nat, before, k);
        assert(items[n - 1].name != "op"@);
    }
}

/// An argument that the macros do not know is refused, and a method's roles
/// are read only if all its arguments are.
pub proof fn law_unknown_arguments_are_refused(parsed: MetaItemsView, k: int)
    requires
        0 <= k < parsed.items.len(),
    ensures
        !is_known(parsed.items[k]) ==> crate::macros::methods::method_roles(parsed) is Err,
        crate::macros::methods::roles_of(parsed.items, k as nat) is Ok && !is_named(
            seq![parsed.items[k]],
            1,
            "command"@,
        ) && parsed.items[k].name != "direct"@ && parsed.items[k].name != "direct_mut"@
            && parsed.items[k].name != "task"@ && parsed.items[k].name != "op"@
            && parsed.items[k].name != "from"@ && parsed.items[k].name != "watch"@
            ==> crate::macros::methods::method_roles(parsed) == Err::<MethodAttrsView, Seq<char>>(
            "unknown rillet attribute; expected `command`, `direct`, `direct_mut`, `task`, `op`, `op(execute = <method>, timeout = <reason>)`, `from = <field>`, or `watch = <field>`"@,
        ),
        parsed.error is Some ==> crate::macros::methods::method_roles(parsed) is Err,
{
    let n = parsed.items.len();
    if crate::macros::methods::roles_of(parsed.items, n) is Ok {
        law_method_roles(parsed.items, n, crate::macros::methods::roles_of(parsed.items, n)->Ok_0);
    }
    lemma_first_bad_argument(parsed.items, (k + 1) as nat, n);
    assert(seq![parsed.items[k]][0].name == parsed.items[k].name);
}

proof fn lemma_first_bad_argument(items: Seq<MetaItemView>, n: nat, m: nat)
    requires
        n <= m,
    ensures
        crate::macros::methods::roles_of(items, n) is Err ==> crate::macros::methods::roles_of(
            items,
            m,
        ) == crate::macros::methods::roles_of(items, n),
    decreases m,
{
    if n < m {
        lemma_first_bad_argument(items, n, (m - 1) as nat);
    }
}

proof fn lemma_deferred(
    items: Seq<MetaItemView>,
    n: nat,
    execute: Option<Seq<char>>,
    timeout: Option<Seq<char>>,
)
    requires
        n <= items.len(),
        crate::macros::methods::deferred(items, n) == Ok::<
            (Option<Seq<char>>, Option<Seq<char>>),
            Seq<char>,
        >((execute, timeout)),
    ensures
        is_last_assigned(items, n, "execute"@, execute),
        is_last_assigned(items, n, "timeout"@, timeout),
        forall|i: int|
            0 <= i < n ==> ((#[trigger] items[i]).name == "execute"@ || items[i].name
                == "timeout"@) && items[i].value is Assigned,
    decreases n,
{
    reveal_strlit("execute");
    reveal_strlit("timeout");
    assert("execute"@[0] != "timeout"@[0]);
    if n > 0 {
        let m = (n - 1) as nat;
        let before = crate::macros::methods::deferred(items, m)->Ok_0;
        lemma_deferred(items, m, before.0, before.1);
        lemma_last_assigned(items, n, "execute"@, before.0);
        lemma_last_assigned(items, n, "timeout"@, before.1);
    }
}

/// A deferred op's execute method and timeout are those that its list
/// assigns, the last of each; a list without both, with another name or with
/// something wrong is refused.
pub proof fn law_deferred_op(parsed: MetaItemsView)
    ensures
        match crate::macros::methods::op_role(parsed) {
            Ok(role) => parsed.error is None && (role matches OpRoleView::Deferred {
                execute,
                timeout,
            } && is_last_assigned(parsed.items, parsed.items.len(), "execute"@, Some(execute))
                && is_last_assigned(parsed.items, parsed.items.len(), "timeout"@, Some(timeout))),
            Err(_) => true,
        },
        !is_named(parsed.items, parsed.items.len(), "execute"@) || !is_named(
            parsed.items,
            parsed.items.len(),
            "timeout"@,
        ) ==> crate::macros::methods::op_role(parsed) is Err,
{
    let n = parsed.items.len();
    if let Ok((execute, timeout)) = crate::macros::methods::deferred(parsed.items, n) {
        lemma_deferred(parsed.items, n, execute, timeout);
        if execute is Some {
            assert(is_named(parsed.items, n, "execute"@));
        }
        if timeout is Some {
            assert(is_named(parsed.items, n, "timeout"@));
        }
    }
}

/// A handler's parameters are the named ones among its arguments, in their
/// order and with their types; the receiver is passed over, and a pattern is
/// refused.
pub proof fn law_parameters(args: Seq<ArgView>, n: nat)
    requires
        n <= args.len(),
    ensures
        (forall|i: int| 0 <= i < n ==> !((#[trigger] args[i]) is Pattern))
            ==> crate::macros::methods::params_of(args, n) == Ok::<Seq<ParamView>, Seq<char>>(
            args.take(n as int).filter(|a: ArgView| a is Named).map_values(
                |a: ArgView| ParamView { name: a->name, ty: a->Named_ty },
            ),
        ),
        (exists|i: int| 0 <= i < n && (#[trigger] args[i]) is Pattern)
            ==> crate::macros::methods::params_of(args, n) == Err::<Seq<ParamView>, Seq<char>>(
            "rillet handler parameters must be simple identifiers"@,
        ),
    decreases n,
{
    reveal(Seq::filter);
    let named = |a: ArgView| a is Named;
    let param = |a: ArgView| ParamView { name: a->name, ty: a->Named_ty };
    if n == 0 {
        assert(args.take(0).filter(named).map_values(param) =~= seq![]);
    } else {
        let m = (n - 1) as nat;
        law_parameters(args, m);
        assert(args.take(n as int).drop_last() =~= args.take(m as int));
        assert(args.take(n as int).last() == args[m as int]);
        let before = args.take(m as int).filter(named);
        if args[m as int] is Named {
            assert(args.take(n as int).filter(named) == before.push(args[m as int]));
            assert(before.push(args[m as int]).map_values(param) =~= before.map_values(param).push(
                param(args[m as int]),
            ));
        }
    }
}

/// An event handler's event is its first parameter that is no receiver.
pub proof fn law_event_parameter(args: Seq<ArgView>, i: int, k: int)
    requires
        0 <= i <= k <= args.len(),
        forall|j: int| i <= j < k ==> (#[trigger] args[j]) is Receiver,
        k < args.len() ==> !(args[k] is Receiver),
    ensures
        k == args.len() ==> crate::macros::methods::param_from(args, i) == Ok::<
            Option<ParamView>,
            Seq<char>,
        >(None),
        k < args.len() ==> (args[k] matches ArgView::Named { name, ty }
            ==> crate::macros::methods::param_from(args, i) == Ok::<Option<ParamView>, Seq<char>>(
            Some(ParamView { name, ty }),
        )),
        k < args.len() && args[k] is Pattern ==> crate::macros::methods::param_from(args, i)
            == Err::<Option<ParamView>, Seq<char>>(
            "rillet handler parameters must be simple identifiers"@,
        ),
    decreases k - i,
{
    if i < k {
        law_event_parameter(args, i + 1, k);
    }
}

/// A list behind `op` that names no execute method or no timeout, or names
/// something else, is refused with the form that it should have.
pub proof fn law_a_deferred_op_needs_both(parsed: MetaItemsView)
    requires
        parsed.error is None,
        forall|i: int|
            0 <= i < parsed.items.len() ==> (#[trigger] parsed.items[i]).value is Assigned,
        !is_named(parsed.items, parsed.items.len(), "execute"@) || !is_named(
            parsed.items,
            parsed.items.len(),
            "timeout"@,
        ),
    ensures
        crate::macros::methods::op_role(parsed) == Err::<OpRoleView, Seq<char>>(
            "expected `op(execute = <method>, timeout = <reason>)`"@,
        ),
{
    lemma_deferred_refusal(parsed.items, parsed.items.len());
    if let Ok((execute, timeout)) = crate::macros::methods::deferred(
        parsed.items,
        parsed.items.len(),
    ) {
        lemma_deferred(parsed.items, parsed.items.len(), execute, timeout);
    }
}

proof fn lemma_deferred_refusal(items: Seq<MetaItemView>, n: nat)
    requires
        n <= items.len(),
        forall|i: int| 0 <= i < items.len() ==> (#[trigger] items[i]).value is Assigned,
    ensures
        crate::macros::methods::deferred(items, n) matches Err(message) ==> message
            == "expected `op(execute = <method>, timeout = <reason>)`"@,
    decreases n,
{
    if n > 0 {
        lemma_deferred_refusal(items, (n - 1) as nat);
        assert(items[n - 1].value is Assigned);
    }
}

} // verus!
