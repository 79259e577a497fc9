//! What holds of the grammar of attribute arguments.

use crate::macros::attrs::{
    AT_END, Context, EXPECTED_ARGS, EXPECTED_PARENS, FOUND_KEYWORD, MetaItemView, MetaItemsView,
    MetaValueView,
};
use crate::macros::syntax::{LeadingView, TreeKind, TreeView};
use vstd::prelude::*;

verus! {

/// Token trees are printed one behind the other, each with a space behind it
/// unless it is joined to the next, and a group within its own brackets.
pub proof fn law_trees_are_printed(trees: Seq<TreeView>, i: int)
    requires
        0 <= i <= trees.len(),
    ensures
        i == trees.len() ==> crate::macros::attrs::text_from(trees, i) == ""@,
        i < trees.len() ==> crate::macros::attrs::text_from(trees, i) == (match trees[i].kind {
            TreeKind::Joint => trees[i].text,
            TreeKind::Parens => "("@ + trees[i].text + ") "@,
            TreeKind::Brackets => "["@ + trees[i].text + "] "@,
            TreeKind::Braces => "{"@ + trees[i].text + "} "@,
            _ => trees[i].text + " "@,
        }) + crate::macros::attrs::text_from(trees, i + 1),
{
    reveal_strlit("");
    reveal_strlit(" ");
    reveal_strlit("(");
    reveal_strlit(") ");
    reveal_strlit("[");
    reveal_strlit("] ");
    reveal_strlit("{");
    reveal_strlit("} ");
    if i < trees.len() {
        assert("("@ =~= seq!['(']);
        assert(") "@ =~= seq![')', ' ']);
        assert("["@ =~= seq!['[']);
        assert("] "@ =~= seq![']', ' ']);
        assert("{"@ =~= seq!['{']);
        assert("} "@ =~= seq!['}', ' ']);
        assert(" "@ =~= seq![' ']);
    } else {
        assert(""@ =~= Seq::<char>::empty());
    }
}

/// Whether `=` stands alone at a position.
pub open spec fn equals_at(trees: Seq<TreeView>, i: int) -> bool {
    0 <= i < trees.len() && trees[i] == (TreeView { kind: TreeKind::Alone, text: seq!['='] })
}

/// Whether a name stands at a position that is no keyword.
pub open spec fn name_at(trees: Seq<TreeView>, i: int) -> bool {
    0 <= i < trees.len() && trees[i].kind == TreeKind::Ident && crate::macros::syntax::identifier(
        trees[i].text,
    ) is Some
}

proof fn lemma_punctuation()
    ensures
        seq!['='] != seq![':'],
        seq![','] != seq![':'],
        seq![','] != seq!['='],
        seq!['-'] != seq![':'],
{
    assert(seq!['='][0] != seq![':'][0]);
    assert(seq![','][0] != seq![':'][0]);
    assert(seq![','][0] != seq!['='][0]);
    assert(seq!['-'][0] != seq![':'][0]);
}

proof fn lemma_names()
    ensures
        "execute"@ != "timeout"@,
        "from"@ != "watch"@,
        "from"@ != "op"@,
        "watch"@ != "op"@,
        "get"@ != "gauge"@,
{
    reveal_strlit("execute");
    reveal_strlit("timeout");
    reveal_strlit("from");
    reveal_strlit("watch");
    reveal_strlit("op");
    reveal_strlit("get");
    reveal_strlit("gauge");
    assert("execute"@[0] != "timeout"@[0]);
    assert("from"@.len() == 4);
    assert("watch"@.len() == 5);
    assert("op"@.len() == 2);
    assert("get"@.len() == 3);
    assert("gauge"@.len() == 5);
}

/// An expression is read behind `=` in the service attribute, behind
/// `default` and behind `timeout`: it is the one that the rest of the text
/// starts with, and reading goes on behind it.
pub proof fn law_an_expression_is_assigned(
    context: Context,
    trees: Seq<TreeView>,
    i: int,
    leading: LeadingView,
)
    requires
        name_at(trees, i),
        equals_at(trees, i + 1),
        context == Context::Service || context == Context::Default && trees[i].text == "default"@
            || context == Context::Deferred && trees[i].text == "timeout"@,
        context == Context::Service ==> i + 2 < trees.len() && trees[i + 2].text != seq!['#'],
        crate::macros::syntax::led(crate::macros::attrs::text_from(trees, i + 2)) == Ok::<
            LeadingView,
            Seq<char>,
        >(leading),
        leading.rest.len() <= trees.len() - i - 2,
    ensures
        crate::macros::attrs::item_at(context, trees, i) == Ok::<(MetaItemView, int), Seq<char>>(
            (
                MetaItemView {
                    name: trees[i].text,
                    value: MetaValueView::Assigned { expr: leading.expr },
                },
                trees.len() - leading.rest.len(),
            ),
        ),
{
    lemma_punctuation();
    lemma_names();
}

/// What is wrong with the expression behind `=` is what is wrong with the
/// argument.
pub proof fn law_a_bad_expression_is_refused(
    context: Context,
    trees: Seq<TreeView>,
    i: int,
    message: Seq<char>,
)
    requires
        name_at(trees, i),
        equals_at(trees, i + 1),
        context == Context::Service || context == Context::Default && trees[i].text == "default"@
            || context == Context::Deferred && trees[i].text == "timeout"@,
        context == Context::Service ==> i + 2 < trees.len() && trees[i + 2].text != seq!['#'],
        crate::macros::syntax::led(crate::macros::attrs::text_from(trees, i + 2)) == Err::<
            LeadingView,
            Seq<char>,
        >(message),
    ensures
        crate::macros::attrs::item_at(context, trees, i) == Err::<(MetaItemView, int), Seq<char>>(
            message,
        ),
{
    lemma_punctuation();
    lemma_names();
}

/// The events of a struct are read out of the square brackets behind
/// `emits =`, and the execute method of an op is the name behind `execute =`.
pub proof fn law_lists_and_methods_are_assigned(trees: Seq<TreeView>, i: int)
    requires
        name_at(trees, i),
        equals_at(trees, i + 1),
        i + 2 < trees.len(),
    ensures
        trees[i].text == "emits"@ && trees[i + 2].kind == TreeKind::Brackets
            ==> crate::macros::attrs::item_at(Context::Struct, trees, i) == Ok::<
            (MetaItemView, int),
            Seq<char>,
        >(
            (
                MetaItemView {
                    name: "emits"@,
                    value: MetaValueView::List { inner: trees[i + 2].text },
                },
                i + 3,
            ),
        ),
        trees[i].text == "emits"@ && trees[i + 2].kind != TreeKind::Brackets
            ==> crate::macros::attrs::item_at(Context::Struct, trees, i) == Err::<
            (MetaItemView, int),
            Seq<char>,
        >("expected square brackets"@),
        trees[i].text == "execute"@ && name_at(trees, i + 2) ==> crate::macros::attrs::item_at(
            Context::Deferred,
            trees,
            i,
        ) == Ok::<(MetaItemView, int), Seq<char>>(
            (
                MetaItemView {
                    name: "execute"@,
                    value: MetaValueView::Assigned {
                        expr: crate::macros::syntax::identifier(trees[i + 2].text)->Some_0,
                    },
                },
                i + 3,
            ),
        ),
{
    lemma_punctuation();
    lemma_names();
}

/// The keywords `get` and `gauge` stand alone: nothing behind them is read
/// with them.
pub proof fn law_keywords_stand_alone(trees: Seq<TreeView>, i: int)
    requires
        name_at(trees, i),
        trees[i].text == "get"@ || trees[i].text == "gauge"@,
        i + 1 < trees.len() ==> trees[i + 1].text != seq![':'],
    ensures
        crate::macros::attrs::item_at(Context::Flag, trees, i) == Ok::<
            (MetaItemView, int),
            Seq<char>,
        >((MetaItemView { name: trees[i].text, value: MetaValueView::Bare }, i + 1)),
{
}

/// A name that needs a value is refused without `=` behind it.
pub proof fn law_a_value_is_demanded(context: Context, trees: Seq<TreeView>, i: int)
    requires
        name_at(trees, i),
        context == Context::Struct && trees[i].text == "emits"@ || context == Context::Method && (
        trees[i].text == "from"@ || trees[i].text == "watch"@) || context == Context::Deferred && (
        trees[i].text == "execute"@ || trees[i].text == "timeout"@),
        i + 1 < trees.len() ==> trees[i + 1].text != seq![':'] && trees[i + 1].text != seq!['='],
    ensures
        crate::macros::attrs::item_at(context, trees, i) == Err::<(MetaItemView, int), Seq<char>>(
            "expected `=`"@,
        ),
{
    lemma_names();
}

/// Arguments stand between commas: one behind which something else stands is
/// the last that is read, and a comma behind the last changes nothing.
pub proof fn law_commas_separate_arguments(
    context: Context,
    trees: Seq<TreeView>,
    i: int,
    item: MetaItemView,
    end: int,
)
    requires
        0 <= i < trees.len(),
        crate::macros::attrs::item_at(context, trees, i) == Ok::<(MetaItemView, int), Seq<char>>(
            (item, end),
        ),
    ensures
        end == trees.len() ==> crate::macros::attrs::items_at(context, trees, i) == (MetaItemsView {
            items: seq![item],
            error: None,
        }),
        end + 1 == trees.len() && crate::macros::attrs::is_punct(trees, end, ',')
            ==> crate::macros::attrs::items_at(context, trees, i) == (MetaItemsView {
            items: seq![item],
            error: None,
        }),
        end < trees.len() && !crate::macros::attrs::is_punct(trees, end, ',')
            ==> crate::macros::attrs::items_at(context, trees, i) == (MetaItemsView {
            items: seq![item],
            error: Some("expected `,`"@),
        }),
        end < trees.len() && crate::macros::attrs::is_punct(trees, end, ',')
            ==> crate::macros::attrs::items_at(context, trees, i).items[0] == item
            && crate::macros::attrs::items_at(context, trees, i).items.skip(1)
            == crate::macros::attrs::items_at(context, trees, end + 1).items
            && crate::macros::attrs::items_at(context, trees, i).error
            == crate::macros::attrs::items_at(context, trees, end + 1).error,
{
    crate::macros::attrs::lemma_item_at(context, trees, i);
    let rest = crate::macros::attrs::items_at(context, trees, end + 1).items;
    assert((seq![item] + rest).skip(1) =~= rest);
    if end + 1 == trees.len() {
        assert(seq![item] + rest =~= seq![item]);
    }
}

/// What is wrong with an argument is what is wrong with the arguments, behind
/// those that were read before it.
pub proof fn law_a_bad_argument_ends_the_reading(
    context: Context,
    trees: Seq<TreeView>,
    i: int,
    message: Seq<char>,
)
    requires
        0 <= i < trees.len(),
        crate::macros::attrs::item_at(context, trees, i) == Err::<(MetaItemView, int), Seq<char>>(
            message,
        ),
    ensures
        crate::macros::attrs::items_at(context, trees, i) == (MetaItemsView {
            items: seq![],
            error: Some(message),
        }),
{
}

/// An argument starts with a name: outside the service attribute a literal
/// and any other token that starts no path is refused, each in its own
/// words.
pub proof fn law_an_argument_starts_with_a_name(context: Context, trees: Seq<TreeView>, i: int)
    requires
        0 <= i < trees.len(),
        context != Context::Service,
        trees[i].kind != TreeKind::Ident,
    ensures
        trees[i].kind == TreeKind::Literal ==> crate::macros::attrs::item_at(context, trees, i)
            == Err::<(MetaItemView, int), Seq<char>>(
            "unexpected literal in nested attribute, expected ident"@,
        ),
        trees[i].kind != TreeKind::Literal && trees[i].text != seq![':'] && trees[i].text
            != seq!['-'] ==> crate::macros::attrs::item_at(context, trees, i) == Err::<
            (MetaItemView, int),
            Seq<char>,
        >("unexpected token in nested attribute, expected ident"@),
{
}

/// A longer path is read as one name that none of the macros' own equals.
pub proof fn law_a_longer_path_has_no_name(context: Context, trees: Seq<TreeView>, i: int)
    requires
        0 <= i,
        i + 4 <= trees.len(),
        name_at(trees, i),
        context == Context::Service ==> trees[i].text != "unsafe"@,
        trees[i + 1] == (TreeView { kind: TreeKind::Joint, text: seq![':'] }),
        trees[i + 2].kind == TreeKind::Alone && trees[i + 2].text == seq![':'],
        name_at(trees, i + 3),
        i + 4 < trees.len() ==> trees[i + 4].text != seq![':'],
    ensures
        crate::macros::attrs::path_at(context, trees, i) == Ok::<(Seq<char>, int), Seq<char>>(
            (""@, i + 4),
        ),
{
    reveal_strlit("");
    assert(""@ =~= Seq::<char>::empty());
    reveal_with_fuel(crate::macros::attrs::path_end, 2);
}

/// A name behind `from =`, `watch =` or `execute =` is no keyword and is not
/// missing.
pub proof fn law_a_field_is_a_name(context: Context, trees: Seq<TreeView>, i: int)
    requires
        name_at(trees, i),
        equals_at(trees, i + 1),
        context == Context::Method && (trees[i].text == "from"@ || trees[i].text == "watch"@)
            || context == Context::Deferred && trees[i].text == "execute"@,
    ensures
        i + 2 == trees.len() ==> crate::macros::attrs::item_at(context, trees, i) == Err::<
            (MetaItemView, int),
            Seq<char>,
        >("unexpected end of input, expected identifier"@),
        i + 2 < trees.len() && trees[i + 2].kind != TreeKind::Ident
            ==> crate::macros::attrs::item_at(context, trees, i) == Err::<
            (MetaItemView, int),
            Seq<char>,
        >("expected identifier"@),
        i + 2 < trees.len() && trees[i + 2].kind == TreeKind::Ident
            && crate::macros::syntax::identifier(trees[i + 2].text) is None
            ==> crate::macros::attrs::item_at(context, trees, i) == Err::<
            (MetaItemView, int),
            Seq<char>,
        >("expected identifier, found keyword `"@ + trees[i + 2].text + "`"@),
{
    lemma_punctuation();
    lemma_names();
    reveal_strlit("unexpected end of input, $0");
    reveal_strlit("unexpected end of input, ");
    reveal_strlit("expected identifier");
    reveal_strlit("unexpected end of input, expected identifier");
    let text = "unexpected end of input, "@;
    let end = Seq::<char>::empty();
    assert(AT_END@ =~= text + crate::text::hole(0) + end);
    crate::text::lemma_fills1(text, 0, end, seq!["expected identifier"@]);
    assert("unexpected end of input, expected identifier"@ =~= text + "expected identifier"@ + end);
    reveal_strlit("expected identifier, found keyword `$0`");
    reveal_strlit("expected identifier, found keyword `");
    reveal_strlit("`");
    let a = "expected identifier, found keyword `"@;
    let b = "`"@;
    assert(FOUND_KEYWORD@ =~= a + crate::text::hole(0) + b);
    if i + 2 < trees.len() {
        crate::text::lemma_fills1(a, 0, b, seq![trees[i + 2].text]);
    }
}

/// A `rillet` attribute without arguments is refused: one with a value asks
/// for parentheses, and any other for arguments, each spelled as the
/// attribute stands.
pub proof fn law_attributes_need_arguments(
    context: Context,
    attr: Seq<char>,
    outer: Seq<TreeView>,
    inner: Seq<TreeView>,
)
    requires
        crate::macros::syntax::lexed(attr) == Some(outer),
        outer.len() > 0,
        crate::macros::syntax::lexed(outer.last().text) == Some(inner),
        inner.len() > 0,
        inner[0] == (TreeView { kind: TreeKind::Ident, text: "rillet"@ }),
    ensures
        inner.len() == 1 && crate::macros::attrs::is_inner(attr)
            ==> crate::macros::attrs::attr_items(context, attr) == (MetaItemsView {
            items: seq![],
            error: Some("expected attribute arguments in parentheses: #![rillet(...)]"@),
        }),
        inner.len() == 1 && !crate::macros::attrs::is_inner(attr)
            ==> crate::macros::attrs::attr_items(context, attr) == (MetaItemsView {
            items: seq![],
            error: Some("expected attribute arguments in parentheses: #[rillet(...)]"@),
        }),
        equals_at(inner, 1) && crate::macros::attrs::is_inner(attr)
            ==> crate::macros::attrs::attr_items(context, attr) == (MetaItemsView {
            items: seq![],
            error: Some("expected parentheses: #![rillet(...)]"@),
        }),
        equals_at(inner, 1) && !crate::macros::attrs::is_inner(attr)
            ==> crate::macros::attrs::attr_items(context, attr) == (MetaItemsView {
            items: seq![],
            error: Some("expected parentheses: #[rillet(...)]"@),
        }),
{
    lemma_punctuation();
    reveal_strlit("#");
    reveal_strlit("#!");
    reveal_strlit("[rillet(...)]");
    reveal_strlit("expected attribute arguments in parentheses: $0[rillet(...)]");
    reveal_strlit("expected attribute arguments in parentheses: ");
    reveal_strlit("expected attribute arguments in parentheses: #[rillet(...)]");
    reveal_strlit("expected attribute arguments in parentheses: #![rillet(...)]");
    reveal_strlit("expected parentheses: $0[rillet(...)]");
    reveal_strlit("expected parentheses: ");
    reveal_strlit("expected parentheses: #[rillet(...)]");
    reveal_strlit("expected parentheses: #![rillet(...)]");
    let a = "expected attribute arguments in parentheses: "@;
    let b = "expected parentheses: "@;
    let end = "[rillet(...)]"@;
    assert(EXPECTED_ARGS@ =~= a + crate::text::hole(0) + end);
    assert(EXPECTED_PARENS@ =~= b + crate::text::hole(0) + end);
    crate::text::lemma_fills1(a, 0, end, seq!["#"@]);
    crate::text::lemma_fills1(a, 0, end, seq!["#!"@]);
    crate::text::lemma_fills1(b, 0, end, seq!["#"@]);
    crate::text::lemma_fills1(b, 0, end, seq!["#!"@]);
    assert("expected attribute arguments in parentheses: #[rillet(...)]"@ =~= a + "#"@ + end);
    assert("expected attribute arguments in parentheses: #![rillet(...)]"@ =~= a + "#!"@ + end);
    assert("expected parentheses: #[rillet(...)]"@ =~= b + "#"@ + end);
    assert("expected parentheses: #![rillet(...)]"@ =~= b + "#!"@ + end);
}

/// An attribute whose path goes on behind `rillet`, or that starts with no
/// name, is someone else's; one in any brackets is read out of them.
pub proof fn law_whose_attributes_are_read(
    context: Context,
    attr: Seq<char>,
    outer: Seq<TreeView>,
    inner: Seq<TreeView>,
)
    requires
        crate::macros::syntax::lexed(attr) == Some(outer),
        outer.len() > 0,
        crate::macros::syntax::lexed(outer.last().text) == Some(inner),
        inner.len() > 0,
    ensures
        inner[0].kind != TreeKind::Ident ==> crate::macros::attrs::attr_items(context, attr) == (
        MetaItemsView { items: seq![], error: None }),
        inner.len() > 2 && inner[1] == (TreeView { kind: TreeKind::Joint, text: seq![':'] })
            && inner[2] == (TreeView { kind: TreeKind::Alone, text: seq![':'] })
            ==> crate::macros::attrs::attr_items(context, attr) == (MetaItemsView {
            items: seq![],
            error: None,
        }),
        inner.len() == 2 && inner[0] == (TreeView { kind: TreeKind::Ident, text: "rillet"@ }) && (
        inner[1].kind == TreeKind::Brackets || inner[1].kind == TreeKind::Braces)
            ==> crate::macros::attrs::attr_items(context, attr) == crate::macros::attrs::items(
            context,
            inner[1].text,
        ),
{
}

/// An attribute is an inner one exactly where `!` stands behind its first
/// token.
pub proof fn law_inner_attributes(attr: Seq<char>, trees: Seq<TreeView>)
    requires
        crate::macros::syntax::lexed(attr) == Some(trees),
        trees.len() > 1,
    ensures
        trees[1] == (TreeView { kind: TreeKind::Alone, text: seq!['!'] })
            ==> crate::macros::attrs::is_inner(attr),
        trees[1].text != seq!['!'] ==> !crate::macros::attrs::is_inner(attr),
{
}

/// A list is read out of the round brackets behind a name that allows one: in
/// the service attribute and for a keyword behind any other name, and behind
/// `op`; the service attribute takes other brackets too.
pub proof fn law_lists_are_read(context: Context, trees: Seq<TreeView>, i: int)
    requires
        name_at(trees, i),
        i + 1 < trees.len(),
        trees[i + 1].kind == TreeKind::Parens || context == Context::Service && (trees[i + 1].kind
            == TreeKind::Brackets || trees[i + 1].kind == TreeKind::Braces),
        context == Context::Service || context == Context::Flag && trees[i].text != "get"@
            && trees[i].text != "gauge"@ || context == Context::Method && trees[i].text == "op"@,
    ensures
        crate::macros::attrs::item_at(context, trees, i) == Ok::<(MetaItemView, int), Seq<char>>(
            (
                MetaItemView {
                    name: trees[i].text,
                    value: MetaValueView::List { inner: trees[i + 1].text },
                },
                i + 2,
            ),
        ),
{
    lemma_names();
}

/// The service attribute tells `==` and `=>` apart from `=`: a value is
/// assigned behind neither.
pub proof fn law_comparisons_assign_nothing(trees: Seq<TreeView>, i: int)
    requires
        name_at(trees, i),
        i + 2 < trees.len(),
        trees[i + 1] == (TreeView { kind: TreeKind::Joint, text: seq!['='] }),
        trees[i + 2].kind == TreeKind::Alone,
        trees[i + 2].text == seq!['='] || trees[i + 2].text == seq!['>'],
    ensures
        crate::macros::attrs::item_at(Context::Service, trees, i) == Ok::<
            (MetaItemView, int),
            Seq<char>,
        >((MetaItemView { name: trees[i].text, value: MetaValueView::Bare }, i + 1)),
{
    lemma_punctuation();
}

/// A value of the service attribute has no attribute of its own.
pub proof fn law_values_have_no_attributes(trees: Seq<TreeView>, i: int)
    requires
        name_at(trees, i),
        equals_at(trees, i + 1),
        i + 3 < trees.len(),
        trees[i + 2] == (TreeView { kind: TreeKind::Alone, text: seq!['#'] }),
        trees[i + 3].kind == TreeKind::Brackets,
    ensures
        crate::macros::attrs::item_at(Context::Service, trees, i) == Err::<
            (MetaItemView, int),
            Seq<char>,
        >("unexpected attribute inside of attribute"@),
{
    lemma_punctuation();
}

/// A negative number is a literal, and no argument starts with one.
pub proof fn law_a_negative_number_is_a_literal(context: Context, trees: Seq<TreeView>, i: int)
    requires
        0 <= i,
        i + 1 < trees.len(),
        context != Context::Service,
        trees[i] == (TreeView { kind: TreeKind::Alone, text: seq!['-'] }),
        trees[i + 1].kind == TreeKind::Literal,
        trees[i + 1].text.len() > 0,
        '0' <= trees[i + 1].text[0] <= '9',
    ensures
        crate::macros::attrs::item_at(context, trees, i) == Err::<(MetaItemView, int), Seq<char>>(
            "unexpected literal in nested attribute, expected ident"@,
        ),
{
    lemma_punctuation();
}

/// An argument of the service attribute starts with a name that is no
/// keyword, unless it is one that starts a path.
pub proof fn law_a_service_argument_starts_with_a_name(trees: Seq<TreeView>, i: int)
    requires
        0 <= i < trees.len(),
        trees[i].text != seq![':'],
    ensures
        trees[i].kind != TreeKind::Ident ==> crate::macros::attrs::item_at(
            Context::Service,
            trees,
            i,
        ) == Err::<(MetaItemView, int), Seq<char>>("expected identifier"@),
        trees[i].kind == TreeKind::Ident && crate::macros::syntax::identifier(trees[i].text) is None
            && trees[i].text != "unsafe"@ && trees[i].text != "super"@ && trees[i].text != "self"@
            && trees[i].text != "Self"@ && trees[i].text != "crate"@
            ==> crate::macros::attrs::item_at(Context::Service, trees, i) == Err::<
            (MetaItemView, int),
            Seq<char>,
        >("expected identifier, found keyword `"@ + trees[i].text + "`"@),
        trees[i].kind == TreeKind::Ident && i + 1 == trees.len() && (trees[i].text == "unsafe"@
            || trees[i].text == "super"@ || trees[i].text == "self"@ || trees[i].text == "Self"@
            || trees[i].text == "crate"@) ==> crate::macros::attrs::item_at(
            Context::Service,
            trees,
            i,
        ) == Ok::<(MetaItemView, int), Seq<char>>(
            (MetaItemView { name: trees[i].text, value: MetaValueView::Bare }, i + 1),
        ),
{
    reveal_strlit("expected identifier, found keyword `$0`");
    reveal_strlit("expected identifier, found keyword `");
    reveal_strlit("`");
    let a = "expected identifier, found keyword `"@;
    let b = "`"@;
    assert(FOUND_KEYWORD@ =~= a + crate::text::hole(0) + b);
    crate::text::lemma_fills1(a, 0, b, seq![trees[i].text]);
}

/// A path that goes on without a name is refused, in the words of the
/// attribute it stands in.
pub proof fn law_a_path_goes_on_with_a_name(context: Context, trees: Seq<TreeView>, i: int)
    requires
        name_at(trees, i),
        i + 3 < trees.len(),
        context == Context::Service ==> trees[i].text != "unsafe"@,
        trees[i + 1] == (TreeView { kind: TreeKind::Joint, text: seq![':'] }),
        trees[i + 2] == (TreeView { kind: TreeKind::Alone, text: seq![':'] }),
        trees[i + 3].kind != TreeKind::Ident,
    ensures
        crate::macros::attrs::item_at(context, trees, i) == Err::<(MetaItemView, int), Seq<char>>(
            if context == Context::Service {
                "expected path segment after `::`"@
            } else {
                "expected ident"@
            },
        ),
{
}

} // verus!
