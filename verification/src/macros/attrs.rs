//! The grammar of `#[rillet(...)]` attributes.

use crate::macros::fields::{DEFAULT, EMITS, GAUGE, GET};
use crate::macros::methods::{EXECUTE, FROM, OP, TIMEOUT, WATCH, named};
use crate::macros::syntax::{Tree, TreeKind, TreeView, leading_expr, lex, parse_ident};
use crate::text::{chars_of, fill1};
use vstd::prelude::*;

verus! {

/// The name the macros' attributes go by.
pub const RILLET: &'static str = "rillet";

/// The text of one token tree, with a space behind it unless it is joined
/// to the next.
pub open spec fn tree_text(tree: TreeView) -> Seq<char> {
    match tree.kind {
        TreeKind::Joint => tree.text,
        TreeKind::Parens => seq!['('] + tree.text + seq![')', ' '],
        TreeKind::Brackets => seq!['['] + tree.text + seq![']', ' '],
        TreeKind::Braces => seq!['{'] + tree.text + seq!['}', ' '],
        _ => tree.text + seq![' '],
    }
}

/// The text of the token trees from a position on.
pub open spec fn text_from(trees: Seq<TreeView>, i: int) -> Seq<char>
    decreases trees.len() - i,
{
    if 0 <= i < trees.len() {
        tree_text(trees[i]) + text_from(trees, i + 1)
    } else {
        seq![]
    }
}

/// Writes the token trees from a position on.
fn print_from(trees: &Vec<Tree>, start: usize) -> (text: String)
    requires
        start <= trees.len(),
    ensures
        text@ == text_from(crate::text::views_of(trees@), start as int),
{
    let ghost all = crate::text::views_of(trees@);
    let mut text = String::new();
    let mut i: usize = start;
    while i < trees.len()
        invariant
            start <= i <= trees.len(),
            all == crate::text::views_of(trees@),
            text@ + text_from(all, i as int) == text_from(all, start as int),
        decreases trees.len() - i,
    {
        let ghost before = text@;
        let tree = &trees[i];
        match tree.0 {
            TreeKind::Joint => {
                text.append(tree.1.as_str());
            },
            TreeKind::Parens => {
                text.push('(');
                text.append(tree.1.as_str());
                text.push(')');
                text.push(' ');
            },
            TreeKind::Brackets => {
                text.push('[');
                text.append(tree.1.as_str());
                text.push(']');
                text.push(' ');
            },
            TreeKind::Braces => {
                text.push('{');
                text.append(tree.1.as_str());
                text.push('}');
                text.push(' ');
            },
            _ => {
                text.append(tree.1.as_str());
                text.push(' ');
            },
        }
        assert(text@ =~= before + tree_text(all[i as int]));
        i = i + 1;
        assert(text@ + text_from(all, i as int) =~= before + text_from(all, i - 1));
    }
    assert(text@ + seq![] =~= text@);
    text
}

/// What is wrong where neither the end nor a comma follows.
pub const EXPECTED_COMMA: &'static str = "expected `,`";

/// What is wrong where a value should be assigned.
pub const EXPECTED_EQUALS: &'static str = "expected `=`";

/// What is wrong where an identifier should stand.
pub const EXPECTED_IDENTIFIER: &'static str = "expected identifier";

/// What is wrong where a keyword stands in place of an identifier.
pub const FOUND_KEYWORD: &'static str = "expected identifier, found keyword `$0`";

/// What is wrong where square brackets should stand.
pub const EXPECTED_BRACKETS: &'static str = "expected square brackets";

/// What is wrong where a path goes on without an identifier.
pub const EXPECTED_IDENT: &'static str = "expected ident";

/// What is wrong where a path of the service attribute goes on without a
/// segment.
pub const EXPECTED_SEGMENT: &'static str = "expected path segment after `::`";

/// What is wrong where a path should start and nothing is left.
pub const EXPECTED_NESTED: &'static str = "expected nested attribute";

/// What is wrong where a path should start and a literal stands.
pub const UNEXPECTED_LITERAL: &'static str =
    "unexpected literal in nested attribute, expected ident";

/// What is wrong where a path should start and something else stands.
pub const UNEXPECTED_TOKEN: &'static str =
    "unexpected token in nested attribute, expected ident";

/// What is wrong where a value of the service attribute has an attribute.
pub const UNEXPECTED_ATTRIBUTE: &'static str = "unexpected attribute inside of attribute";

/// What is wrong where nothing is left.
pub const AT_END: &'static str = "unexpected end of input, $0";

pub const UNSAFE: &'static str = "unsafe";

pub const SUPER: &'static str = "super";

pub const LOWER_SELF: &'static str = "self";

pub const UPPER_SELF: &'static str = "Self";

pub const CRATE: &'static str = "crate";

/// Whose arguments are read.
#[derive(Clone, Copy, PartialEq, Eq, Structural)]
pub enum Context {
    /// Those of the service attribute.
    Service,
    /// Those of a struct's attributes.
    Struct,
    /// Those of a field's attributes, for a keyword.
    Flag,
    /// Those of a field's attributes, for its default.
    Default,
    /// Those of a method's attributes.
    Method,
    /// Those of an op whose outcome arrives later.
    Deferred,
}

/// What may stand behind a name.
#[derive(Clone, Copy, PartialEq, Eq, Structural)]
pub enum Shape {
    /// Nothing.
    Bare,
    /// Nothing, or `= expr`.
    Optional,
    /// Nothing, or `(...)`.
    Listed,
    /// Nothing, `= expr` or `(...)`.
    Open,
    /// `= expr`
    Value,
    /// `= ident`
    Named,
    /// `= [...]`
    Bracketed,
}

/// What may stand behind a name in a context.
pub open spec fn shape(context: Context, name: Seq<char>) -> Shape {
    match context {
        Context::Service => Shape::Open,
        Context::Struct => if name == EMITS@ {
            Shape::Bracketed
        } else {
            Shape::Bare
        },
        Context::Flag => if name == GET@ || name == GAUGE@ {
            Shape::Bare
        } else {
            Shape::Open
        },
        Context::Default => if name == DEFAULT@ {
            Shape::Optional
        } else {
            Shape::Bare
        },
        Context::Method => if name == FROM@ || name == WATCH@ {
            Shape::Named
        } else if name == OP@ {
            Shape::Listed
        } else {
            Shape::Bare
        },
        Context::Deferred => if name == EXECUTE@ {
            Shape::Named
        } else if name == TIMEOUT@ {
            Shape::Value
        } else {
            Shape::Bare
        },
    }
}

/// Tells what may stand behind a name in a context.
fn shape_of(context: Context, name: &String) -> (allowed: Shape)
    ensures
        allowed == shape(context, name@),
{
    match context {
        Context::Service => Shape::Open,
        Context::Struct => if named(name, EMITS) {
            Shape::Bracketed
        } else {
            Shape::Bare
        },
        Context::Flag => if named(name, GET) || named(name, GAUGE) {
            Shape::Bare
        } else {
            Shape::Open
        },
        Context::Default => if named(name, DEFAULT) {
            Shape::Optional
        } else {
            Shape::Bare
        },
        Context::Method => if named(name, FROM) || named(name, WATCH) {
            Shape::Named
        } else if named(name, OP) {
            Shape::Listed
        } else {
            Shape::Bare
        },
        Context::Deferred => if named(name, EXECUTE) {
            Shape::Named
        } else if named(name, TIMEOUT) {
            Shape::Value
        } else {
            Shape::Bare
        },
    }
}

/// The value behind a name in an attribute's arguments.
pub enum MetaValue {
    /// `name`
    Bare,
    /// `name = expr`
    Assigned { expr: String },
    /// `name(inner)`
    List { inner: String },
}

/// A value, as mathematics.
pub enum MetaValueView {
    Bare,
    Assigned { expr: Seq<char> },
    List { inner: Seq<char> },
}

impl View for MetaValue {
    type V = MetaValueView;

    open spec fn view(&self) -> MetaValueView {
        match self {
            MetaValue::Bare => MetaValueView::Bare,
            MetaValue::Assigned { expr } => MetaValueView::Assigned { expr: expr@ },
            MetaValue::List { inner } => MetaValueView::List { inner: inner@ },
        }
    }
}

/// One of an attribute's arguments. A name that is a longer path is empty.
pub struct MetaItem {
    pub name: String,
    pub value: MetaValue,
}

/// An argument, as mathematics.
pub struct MetaItemView {
    pub name: Seq<char>,
    pub value: MetaValueView,
}

impl View for MetaItem {
    type V = MetaItemView;

    open spec fn view(&self) -> MetaItemView {
        MetaItemView { name: self.name@, value: self.value@ }
    }
}

/// Whether the token tree at a position is an identifier.
pub open spec fn is_ident(trees: Seq<TreeView>, i: int) -> bool {
    0 <= i < trees.len() && trees[i].kind == TreeKind::Ident
}

/// Whether the token tree at a position is a punctuation character.
pub open spec fn is_punct(trees: Seq<TreeView>, i: int, c: char) -> bool {
    0 <= i < trees.len() && (trees[i].kind == TreeKind::Alone || trees[i].kind == TreeKind::Joint)
        && trees[i].text == seq![c]
}

/// Whether `::` stands at a position.
pub open spec fn is_colons(trees: Seq<TreeView>, i: int) -> bool {
    is_punct(trees, i, ':') && trees[i].kind == TreeKind::Joint && is_punct(trees, i + 1, ':')
}

/// What is wrong at a position, where perhaps nothing is left.
pub open spec fn wrong_at(trees: Seq<TreeView>, i: int, message: Seq<char>) -> Seq<char> {
    if i >= trees.len() {
        crate::text::filled(AT_END@, seq![message])
    } else {
        message
    }
}

/// What is wrong at a position where an identifier should stand.
pub open spec fn no_identifier(trees: Seq<TreeView>, i: int) -> Seq<char> {
    if is_ident(trees, i) {
        crate::text::filled(FOUND_KEYWORD@, seq![trees[i].text])
    } else {
        wrong_at(trees, i, EXPECTED_IDENTIFIER@)
    }
}

/// The identifier at a position, if one stands there and it is no keyword.
pub open spec fn identifier_at(trees: Seq<TreeView>, i: int) -> Option<Seq<char>> {
    if is_ident(trees, i) {
        crate::macros::syntax::identifier(trees[i].text)
    } else {
        None
    }
}

/// Whether a literal stands at a position, perhaps a negative number.
pub open spec fn is_literal(trees: Seq<TreeView>, i: int) -> bool {
    &&& 0 <= i < trees.len()
    &&& {
        ||| trees[i].kind == TreeKind::Literal
        ||| is_punct(trees, i, '-') && i + 1 < trees.len() && trees[i + 1].kind
            == TreeKind::Literal && trees[i + 1].text.len() > 0 && '0' <= trees[i + 1].text[0] <= '9'
    }
}

/// Whether a segment of a path stands at a position. Keywords are segments
/// everywhere but in the service attribute, where only those are that can
/// start a path.
pub open spec fn is_segment(context: Context, trees: Seq<TreeView>, i: int) -> bool {
    is_ident(trees, i) && (context != Context::Service || identifier_at(trees, i) is Some
        || trees[i].text == SUPER@ || trees[i].text == LOWER_SELF@ || trees[i].text == UPPER_SELF@
        || trees[i].text == CRATE@)
}

/// Where the further segments of a path end, or where one is missing.
pub open spec fn path_end(context: Context, trees: Seq<TreeView>, i: int) -> Result<int, int>
    decreases trees.len() - i,
{
    if !is_colons(trees, i) {
        Ok(i)
    } else if is_segment(context, trees, i + 2) {
        path_end(context, trees, i + 3)
    } else {
        Err(i + 2)
    }
}

/// What is wrong at a position where a path should start.
pub open spec fn no_path(context: Context, trees: Seq<TreeView>, i: int) -> Seq<char> {
    if context == Context::Service {
        no_identifier(trees, i)
    } else if i >= trees.len() {
        wrong_at(trees, i, EXPECTED_NESTED@)
    } else if is_literal(trees, i) {
        UNEXPECTED_LITERAL@
    } else {
        UNEXPECTED_TOKEN@
    }
}

/// What is wrong at a position where a path should go on.
pub open spec fn no_segment(context: Context, trees: Seq<TreeView>, i: int) -> Seq<char> {
    if context == Context::Service {
        wrong_at(trees, i, EXPECTED_SEGMENT@)
    } else {
        wrong_at(trees, i, EXPECTED_IDENT@)
    }
}

/// The name of the path at a position and where it ends.
pub open spec fn path_at(context: Context, trees: Seq<TreeView>, i: int) -> Result<
    (Seq<char>, int),
    Seq<char>,
> {
    let start = if is_colons(trees, i) {
        i + 2
    } else {
        i
    };
    if context == Context::Service && is_ident(trees, i) && trees[i].text == UNSAFE@ {
        Ok((trees[i].text, i + 1))
    } else if !is_segment(context, trees, start) {
        Err(no_path(context, trees, start))
    } else {
        match path_end(context, trees, start + 1) {
            Ok(end) => if end == i + 1 {
                Ok((trees[i].text, end))
            } else {
                Ok((seq![], end))
            },
            Err(at) => Err(no_segment(context, trees, at)),
        }
    }
}

/// Whether a value is assigned at a position. The service attribute tells
/// `==` and `=>` apart from that.
pub open spec fn is_assigned(context: Context, trees: Seq<TreeView>, i: int) -> bool {
    is_punct(trees, i, '=') && !(context == Context::Service && trees[i].kind == TreeKind::Joint && (
    is_punct(trees, i + 1, '=') || is_punct(trees, i + 1, '>')))
}

/// The expression at a position and where it ends.
pub open spec fn expr_at(context: Context, trees: Seq<TreeView>, i: int) -> Result<
    (MetaValueView, int),
    Seq<char>,
> {
    if context == Context::Service && is_punct(trees, i, '#') && i + 1 < trees.len() && trees[i
        + 1].kind == TreeKind::Brackets {
        Err(UNEXPECTED_ATTRIBUTE@)
    } else {
        match crate::macros::syntax::led(text_from(trees, i)) {
            Err(message) => Err(message),
            Ok(leading) => if leading.rest.len() <= trees.len() - i {
                Ok(
                    (
                        MetaValueView::Assigned { expr: leading.expr },
                        trees.len() - leading.rest.len(),
                    ),
                )
            } else {
                Err(EXPECTED_COMMA@)
            },
        }
    }
}

/// Whether a list stands at a position: in round brackets, or in the service
/// attribute in any.
pub open spec fn is_list(context: Context, trees: Seq<TreeView>, i: int) -> bool {
    0 <= i < trees.len() && (trees[i].kind == TreeKind::Parens || context == Context::Service
        && is_group(trees[i].kind))
}

/// The value of a shape at a position and where it ends.
pub open spec fn value_at(context: Context, form: Shape, trees: Seq<TreeView>, i: int) -> Result<
    (MetaValueView, int),
    Seq<char>,
> {
    let assigned = is_assigned(context, trees, i);
    match form {
        Shape::Bare => Ok((MetaValueView::Bare, i)),
        Shape::Optional => if assigned {
            expr_at(context, trees, i + 1)
        } else {
            Ok((MetaValueView::Bare, i))
        },
        Shape::Listed => if is_list(context, trees, i) {
            Ok((MetaValueView::List { inner: trees[i].text }, i + 1))
        } else {
            Ok((MetaValueView::Bare, i))
        },
        Shape::Open => if assigned {
            expr_at(context, trees, i + 1)
        } else if is_list(context, trees, i) {
            Ok((MetaValueView::List { inner: trees[i].text }, i + 1))
        } else {
            Ok((MetaValueView::Bare, i))
        },
        Shape::Value => if assigned {
            expr_at(context, trees, i + 1)
        } else {
            Err(EXPECTED_EQUALS@)
        },
        Shape::Named => if assigned {
            match identifier_at(trees, i + 1) {
                Some(ident) => Ok((MetaValueView::Assigned { expr: ident }, i + 2)),
                None => Err(no_identifier(trees, i + 1)),
            }
        } else {
            Err(EXPECTED_EQUALS@)
        },
        Shape::Bracketed => if assigned {
            if i + 1 < trees.len() && trees[i + 1].kind == TreeKind::Brackets {
                Ok((MetaValueView::List { inner: trees[i + 1].text }, i + 2))
            } else {
                Err(wrong_at(trees, i + 1, EXPECTED_BRACKETS@))
            }
        } else {
            Err(EXPECTED_EQUALS@)
        },
    }
}

/// The argument at a position and where it ends.
pub open spec fn item_at(context: Context, trees: Seq<TreeView>, i: int) -> Result<
    (MetaItemView, int),
    Seq<char>,
> {
    match path_at(context, trees, i) {
        Err(message) => Err(message),
        Ok((name, end)) => match value_at(context, shape(context, name), trees, end) {
            Err(message) => Err(message),
            Ok((value, after)) => Ok((MetaItemView { name, value }, after)),
        },
    }
}

/// The segments of a path stay within the token trees.
proof fn lemma_path_end(context: Context, trees: Seq<TreeView>, i: int)
    requires
        0 <= i <= trees.len(),
    ensures
        path_end(context, trees, i) matches Ok(end) ==> i <= end <= trees.len(),
        path_end(context, trees, i) matches Err(at) ==> i <= at <= trees.len(),
    decreases trees.len() - i,
{
    if is_colons(trees, i) && is_segment(context, trees, i + 2) {
        lemma_path_end(context, trees, i + 3);
    }
}

/// An argument takes at least one token tree.
pub proof fn lemma_item_at(context: Context, trees: Seq<TreeView>, i: int)
    requires
        0 <= i < trees.len(),
    ensures
        item_at(context, trees, i) matches Ok((item, end)) ==> i < end <= trees.len(),
{
    let start = if is_colons(trees, i) {
        i + 2
    } else {
        i
    };
    if is_segment(context, trees, start) {
        lemma_path_end(context, trees, start + 1);
    }
}

/// The arguments read up to the first that is malformed, and what is wrong
/// with it.
pub struct MetaItems {
    pub items: Vec<MetaItem>,
    pub error: Option<String>,
}

/// The arguments read, as mathematics.
pub struct MetaItemsView {
    pub items: Seq<MetaItemView>,
    pub error: Option<Seq<char>>,
}

impl View for MetaItems {
    type V = MetaItemsView;

    open spec fn view(&self) -> MetaItemsView {
        MetaItemsView {
            items: crate::text::views_of(self.items@),
            error: crate::macros::syntax::optional(self.error),
        }
    }
}

/// The arguments from a position on, separated by commas.
pub open spec fn items_at(context: Context, trees: Seq<TreeView>, i: int) -> MetaItemsView
    decreases trees.len() - i,
{
    if !(0 <= i < trees.len()) {
        MetaItemsView { items: seq![], error: None }
    } else {
        match item_at(context, trees, i) {
            Err(message) => MetaItemsView { items: seq![], error: Some(message) },
            Ok((item, end)) => {
                proof {
                    lemma_item_at(context, trees, i);
                }
                if end >= trees.len() {
                    MetaItemsView { items: seq![item], error: None }
                } else if !is_punct(trees, end, ',') {
                    MetaItemsView { items: seq![item], error: Some(EXPECTED_COMMA@) }
                } else {
                    let rest = items_at(context, trees, end + 1);
                    MetaItemsView { items: seq![item] + rest.items, error: rest.error }
                }
            },
        }
    }
}

/// The arguments a text spells.
pub open spec fn items(context: Context, text: Seq<char>) -> MetaItemsView {
    match crate::macros::syntax::lexed(text) {
        Some(trees) => items_at(context, trees, 0),
        None => MetaItemsView { items: seq![], error: Some(UNEXPECTED_TOKEN@) },
    }
}

/// Whether the token tree at a position is a punctuation character.
pub fn punct_at(trees: &Vec<Tree>, i: usize, c: char) -> (found: bool)
    ensures
        found == is_punct(crate::text::views_of(trees@), i as int, c),
{
    if i >= trees.len() {
        return false;
    }
    let tree = &trees[i];
    if tree.0 != TreeKind::Alone && tree.0 != TreeKind::Joint {
        return false;
    }
    let mut expected = String::new();
    expected.push(c);
    assert(expected@ =~= seq![c]);
    tree.1 == expected
}

/// Whether `::` stands at a position.
fn colons_at(trees: &Vec<Tree>, i: usize) -> (found: bool)
    ensures
        found == is_colons(crate::text::views_of(trees@), i as int),
{
    i < trees.len() && punct_at(trees, i, ':') && trees[i].0 == TreeKind::Joint && punct_at(
        trees,
        i + 1,
        ':',
    )
}

/// Whether the token tree at a position is an identifier.
fn ident_at(trees: &Vec<Tree>, i: usize) -> (found: bool)
    ensures
        found == is_ident(crate::text::views_of(trees@), i as int),
{
    i < trees.len() && trees[i].0 == TreeKind::Ident
}

/// Words what is wrong at a position, where perhaps nothing is left.
pub fn wrong(trees: &Vec<Tree>, i: usize, message: &str) -> (text: String)
    ensures
        text@ == wrong_at(crate::text::views_of(trees@), i as int, message@),
{
    if i >= trees.len() {
        fill1(AT_END, message)
    } else {
        message.to_owned()
    }
}

/// Words what is wrong at a position where an identifier should stand.
pub fn missing_identifier(trees: &Vec<Tree>, i: usize) -> (text: String)
    ensures
        text@ == no_identifier(crate::text::views_of(trees@), i as int),
{
    if ident_at(trees, i) {
        fill1(FOUND_KEYWORD, trees[i].1.as_str())
    } else {
        wrong(trees, i, EXPECTED_IDENTIFIER)
    }
}

/// Reads the identifier at a position, if one stands there and it is no
/// keyword.
pub fn find_identifier(trees: &Vec<Tree>, i: usize) -> (ident: Option<String>)
    ensures
        identifier_at(crate::text::views_of(trees@), i as int) == crate::macros::syntax::optional(
            ident,
        ),
        ident is Some ==> i < trees.len(),
{
    if ident_at(trees, i) {
        parse_ident(trees[i].1.as_str())
    } else {
        None
    }
}

/// Whether a literal stands at a position, perhaps a negative number.
fn literal_at(trees: &Vec<Tree>, i: usize) -> (found: bool)
    ensures
        found == is_literal(crate::text::views_of(trees@), i as int),
{
    if i >= trees.len() {
        return false;
    }
    if trees[i].0 == TreeKind::Literal {
        return true;
    }
    if !punct_at(trees, i, '-') || trees.len() - i < 2 || trees[i + 1].0 != TreeKind::Literal {
        return false;
    }
    let digits = chars_of(trees[i + 1].1.as_str());
    digits.len() > 0 && '0' <= digits[0] && digits[0] <= '9'
}

/// Whether a segment of a path stands at a position.
fn segment_at(context: Context, trees: &Vec<Tree>, i: usize) -> (found: bool)
    ensures
        found == is_segment(context, crate::text::views_of(trees@), i as int),
{
    if !ident_at(trees, i) {
        return false;
    }
    if context != Context::Service {
        return true;
    }
    let text = &trees[i].1;
    find_identifier(trees, i).is_some() || named(text, SUPER) || named(text, LOWER_SELF) || named(
        text,
        UPPER_SELF,
    ) || named(text, CRATE)
}

/// Where the further segments of a path end, or where one is missing.
fn find_path_end(context: Context, trees: &Vec<Tree>, i: usize) -> (end: Result<usize, usize>)
    requires
        i <= trees.len(),
    ensures
        match end {
            Ok(end) => path_end(context, crate::text::views_of(trees@), i as int) == Ok::<
                int,
                int,
            >(end as int) && i <= end <= trees.len(),
            Err(at) => path_end(context, crate::text::views_of(trees@), i as int) == Err::<
                int,
                int,
            >(at as int),
        },
    decreases trees.len() - i,
{
    if !colons_at(trees, i) {
        return Ok(i);
    }
    if segment_at(context, trees, i + 2) {
        find_path_end(context, trees, i + 3)
    } else {
        Err(i + 2)
    }
}

/// A name and where its path ends.
struct FoundPath {
    name: String,
    end: usize,
}

/// Reads the path at a position.
fn parse_path(context: Context, trees: &Vec<Tree>, i: usize) -> (found: Result<FoundPath, String>)
    requires
        i < trees.len(),
    ensures
        match found {
            Ok(found) => path_at(context, crate::text::views_of(trees@), i as int) == Ok::<
                _,
                Seq<char>,
            >((found.name@, found.end as int)) && i < found.end <= trees.len(),
            Err(message) => path_at(context, crate::text::views_of(trees@), i as int) == Err::<
                (Seq<char>, int),
                _,
            >(message@),
        },
{
    let start = if colons_at(trees, i) {
        i + 2
    } else {
        i
    };
    if context == Context::Service && ident_at(trees, i) && named(&trees[i].1, UNSAFE) {
        return Ok(FoundPath { name: trees[i].1.clone(), end: i + 1 });
    }
    if !segment_at(context, trees, start) {
        return Err(
            if context == Context::Service {
                missing_identifier(trees, start)
            } else if start >= trees.len() {
                wrong(trees, start, EXPECTED_NESTED)
            } else if literal_at(trees, start) {
                UNEXPECTED_LITERAL.to_owned()
            } else {
                UNEXPECTED_TOKEN.to_owned()
            },
        );
    }
    match find_path_end(context, trees, start + 1) {
        Ok(end) => if end == i + 1 {
            Ok(FoundPath { name: trees[i].1.clone(), end })
        } else {
            let name = String::new();
            assert(name@ =~= seq![]);
            Ok(FoundPath { name, end })
        },
        Err(at) => Err(
            if context == Context::Service {
                wrong(trees, at, EXPECTED_SEGMENT)
            } else {
                wrong(trees, at, EXPECTED_IDENT)
            },
        ),
    }
}

/// Whether a value is assigned at a position.
fn assigned_at(context: Context, trees: &Vec<Tree>, i: usize) -> (found: bool)
    ensures
        found == is_assigned(context, crate::text::views_of(trees@), i as int),
{
    if i >= trees.len() || !punct_at(trees, i, '=') {
        return false;
    }
    !(context == Context::Service && trees[i].0 == TreeKind::Joint && (punct_at(trees, i + 1, '=')
        || punct_at(trees, i + 1, '>')))
}

/// A value and where it ends.
struct FoundValue {
    value: MetaValue,
    end: usize,
}

/// Whether a value was found where one is to be found.
spec fn finds(
    found: Result<FoundValue, String>,
    there: Result<(MetaValueView, int), Seq<char>>,
    i: int,
    count: int,
) -> bool {
    match found {
        Ok(found) => there == Ok::<_, Seq<char>>((found.value@, found.end as int)) && i
            <= found.end <= count,
        Err(message) => there == Err::<(MetaValueView, int), _>(message@),
    }
}

/// Reads the expression at a position.
fn parse_expr(context: Context, trees: &Vec<Tree>, i: usize) -> (found: Result<FoundValue, String>)
    requires
        i <= trees.len(),
    ensures
        finds(
            found,
            expr_at(context, crate::text::views_of(trees@), i as int),
            i as int,
            trees.len() as int,
        ),
{
    if context == Context::Service && punct_at(trees, i, '#') && trees.len() - i > 1 && trees[i
        + 1].0 == TreeKind::Brackets {
        return Err(UNEXPECTED_ATTRIBUTE.to_owned());
    }
    let text = print_from(trees, i);
    match leading_expr(text.as_str()) {
        Ok(leading) => if leading.rest.len() <= trees.len() - i {
            let end = trees.len() - leading.rest.len();
            Ok(FoundValue { value: MetaValue::Assigned { expr: leading.expr }, end })
        } else {
            Err(EXPECTED_COMMA.to_owned())
        },
        Err(message) => Err(message),
    }
}

/// Whether a list stands at a position.
fn list_at(context: Context, trees: &Vec<Tree>, i: usize) -> (found: bool)
    ensures
        found == is_list(context, crate::text::views_of(trees@), i as int),
{
    i < trees.len() && (trees[i].0 == TreeKind::Parens || context == Context::Service && (trees[i].0
        == TreeKind::Brackets || trees[i].0 == TreeKind::Braces))
}

/// Reads the value of a shape at a position.
fn parse_value(context: Context, form: Shape, trees: &Vec<Tree>, i: usize) -> (found: Result<
    FoundValue,
    String,
>)
    requires
        i <= trees.len(),
    ensures
        finds(
            found,
            value_at(context, form, crate::text::views_of(trees@), i as int),
            i as int,
            trees.len() as int,
        ),
{
    let assigned = assigned_at(context, trees, i);
    match form {
        Shape::Bare => Ok(FoundValue { value: MetaValue::Bare, end: i }),
        Shape::Optional => if assigned {
            parse_expr(context, trees, i + 1)
        } else {
            Ok(FoundValue { value: MetaValue::Bare, end: i })
        },
        Shape::Listed => if list_at(context, trees, i) {
            Ok(FoundValue { value: MetaValue::List { inner: trees[i].1.clone() }, end: i + 1 })
        } else {
            Ok(FoundValue { value: MetaValue::Bare, end: i })
        },
        Shape::Open => if assigned {
            parse_expr(context, trees, i + 1)
        } else if list_at(context, trees, i) {
            Ok(FoundValue { value: MetaValue::List { inner: trees[i].1.clone() }, end: i + 1 })
        } else {
            Ok(FoundValue { value: MetaValue::Bare, end: i })
        },
        Shape::Value => if assigned {
            parse_expr(context, trees, i + 1)
        } else {
            Err(EXPECTED_EQUALS.to_owned())
        },
        Shape::Named => if assigned {
            match find_identifier(trees, i + 1) {
                Some(expr) => Ok(FoundValue { value: MetaValue::Assigned { expr }, end: i + 2 }),
                None => Err(missing_identifier(trees, i + 1)),
            }
        } else {
            Err(EXPECTED_EQUALS.to_owned())
        },
        Shape::Bracketed => if assigned {
            if trees.len() - i > 1 && trees[i + 1].0 == TreeKind::Brackets {
                let inner = trees[i + 1].1.clone();
                Ok(FoundValue { value: MetaValue::List { inner }, end: i + 2 })
            } else {
                Err(wrong(trees, i + 1, EXPECTED_BRACKETS))
            }
        } else {
            Err(EXPECTED_EQUALS.to_owned())
        },
    }
}

/// An item and where it ends.
struct Found {
    item: MetaItem,
    end: usize,
}

/// Reads the argument at a position.
fn parse_item(context: Context, trees: &Vec<Tree>, i: usize) -> (found: Result<Found, String>)
    requires
        i < trees.len(),
    ensures
        match found {
            Ok(found) => item_at(context, crate::text::views_of(trees@), i as int) == Ok::<
                _,
                Seq<char>,
            >((found.item@, found.end as int)) && i < found.end <= trees.len(),
            Err(message) => item_at(context, crate::text::views_of(trees@), i as int) == Err::<
                (MetaItemView, int),
                _,
            >(message@),
        },
{
    match parse_path(context, trees, i) {
        Ok(path) => match parse_value(context, shape_of(context, &path.name), trees, path.end) {
            Ok(found) => {
                let item = MetaItem { name: path.name, value: found.value };
                Ok(Found { item, end: found.end })
            },
            Err(message) => Err(message),
        },
        Err(message) => Err(message),
    }
}

/// Reads an attribute's arguments.
pub fn parse_items(context: Context, text: &str) -> (parsed: MetaItems)
    ensures
        parsed@ == items(context, text@),
{
    let mut parsed: Vec<MetaItem> = Vec::new();
    assert(crate::text::views_of(parsed@) =~= seq![]);
    let trees = match lex(text) {
        Some(trees) => trees,
        None => {
            return MetaItems { items: parsed, error: Some(UNEXPECTED_TOKEN.to_owned()) };
        },
    };
    let ghost all = crate::text::views_of(trees@);
    let mut i: usize = 0;
    assert(crate::text::views_of(parsed@) + items(context, text@).items =~= items(context, text@).items);
    while i < trees.len()
        invariant
            all == crate::text::views_of(trees@),
            items(context, text@).items == crate::text::views_of(parsed@) + items_at(context, all, i as int).items,
            items(context, text@).error == items_at(context, all, i as int).error,
        decreases trees.len() - i,
    {
        let ghost before = crate::text::views_of(parsed@);
        let found = match parse_item(context, &trees, i) {
            Ok(found) => found,
            Err(message) => {
                assert(before + seq![] =~= before);
                return MetaItems { items: parsed, error: Some(message) };
            },
        };
        let ghost item = found.item@;
        let end = found.end;
        parsed.push(found.item);
        assert(crate::text::views_of(parsed@) =~= before.push(item));
        assert(before + seq![item] =~= before.push(item));
        if end >= trees.len() {
            return MetaItems { items: parsed, error: None };
        }
        if !punct_at(&trees, end, ',') {
            return MetaItems { items: parsed, error: Some(EXPECTED_COMMA.to_owned()) };
        }
        assert(before + (seq![item] + items_at(context, all, end + 1).items) =~= before.push(item)
            + items_at(context, all, end + 1).items);
        i = end + 1;
    }
    assert(crate::text::views_of(parsed@) + seq![] =~= crate::text::views_of(parsed@));
    MetaItems { items: parsed, error: None }
}

/// What is wrong with a `#[rillet]` attribute without arguments.
pub const EXPECTED_ARGS: &'static str =
    "expected attribute arguments in parentheses: $0[rillet(...)]";

/// What is wrong with a `#[rillet = ...]` attribute.
pub const EXPECTED_PARENS: &'static str = "expected parentheses: $0[rillet(...)]";

/// How an attribute starts.
pub const OUTER: &'static str = "#";

/// How an attribute starts that stands inside what it is about.
pub const INNER: &'static str = "#!";

/// What an attribute is to the macros.
pub enum RilletAttr {
    /// An attribute of someone else.
    Other,
    /// A `rillet` attribute without arguments, perhaps with a value.
    Malformed { valued: bool },
    /// A `rillet` attribute and its arguments.
    Args { inner: String },
}

/// What an attribute is to the macros, as mathematics.
pub enum RilletAttrView {
    Other,
    Malformed { valued: bool },
    Args { inner: Seq<char> },
}

impl View for RilletAttr {
    type V = RilletAttrView;

    open spec fn view(&self) -> RilletAttrView {
        match self {
            RilletAttr::Other => RilletAttrView::Other,
            RilletAttr::Malformed { valued } => RilletAttrView::Malformed { valued: *valued },
            RilletAttr::Args { inner } => RilletAttrView::Args { inner: inner@ },
        }
    }
}

/// Whether a token tree is a group with delimiters.
pub open spec fn is_group(kind: TreeKind) -> bool {
    kind == TreeKind::Parens || kind == TreeKind::Brackets || kind == TreeKind::Braces
}

/// What the token trees between an attribute's square brackets are to the
/// macros.
pub open spec fn rillet_meta(trees: Seq<TreeView>) -> RilletAttrView {
    if !is_ident(trees, 0) || trees[0].text != RILLET@ || is_colons(trees, 1) {
        RilletAttrView::Other
    } else if trees.len() == 2 && is_group(trees[1].kind) {
        RilletAttrView::Args { inner: trees[1].text }
    } else {
        RilletAttrView::Malformed { valued: is_punct(trees, 1, '=') }
    }
}

/// What an attribute is to the macros.
pub open spec fn rillet_attr(attr: Seq<char>) -> RilletAttrView {
    match crate::macros::syntax::lexed(attr) {
        Some(outer) => if outer.len() > 0 {
            match crate::macros::syntax::lexed(outer.last().text) {
                Some(trees) => rillet_meta(trees),
                None => RilletAttrView::Other,
            }
        } else {
            RilletAttrView::Other
        },
        None => RilletAttrView::Other,
    }
}

/// Whether an attribute is an inner one, which stands inside what it is
/// about.
pub open spec fn is_inner(attr: Seq<char>) -> bool {
    match crate::macros::syntax::lexed(attr) {
        Some(trees) => is_punct(trees, 1, '!'),
        None => false,
    }
}

/// Tells whether token trees between square brackets are a `rillet`
/// attribute.
pub fn read_meta(trees: &Vec<Tree>) -> (read: RilletAttr)
    ensures
        read@ == rillet_meta(crate::text::views_of(trees@)),
{
    let rillet = RILLET.to_owned();
    if !ident_at(trees, 0) || trees[0].1 != rillet || colons_at(trees, 1) {
        return RilletAttr::Other;
    }
    if trees.len() == 2 && (trees[1].0 == TreeKind::Parens || trees[1].0 == TreeKind::Brackets
        || trees[1].0 == TreeKind::Braces) {
        RilletAttr::Args { inner: trees[1].1.clone() }
    } else {
        RilletAttr::Malformed { valued: punct_at(trees, 1, '=') }
    }
}

/// Tells whether an attribute is a `rillet` one.
pub fn read_attr(attr: &str) -> (read: RilletAttr)
    ensures
        read@ == rillet_attr(attr@),
{
    match lex(attr) {
        Some(outer) => {
            if outer.len() > 0 {
                match lex(outer[outer.len() - 1].1.as_str()) {
                    Some(trees) => read_meta(&trees),
                    None => RilletAttr::Other,
                }
            } else {
                RilletAttr::Other
            }
        },
        None => RilletAttr::Other,
    }
}

/// Tells whether an attribute is an inner one.
pub fn read_inner(attr: &str) -> (inner: bool)
    ensures
        inner == is_inner(attr@),
{
    match lex(attr) {
        Some(trees) => punct_at(&trees, 1, '!'),
        None => false,
    }
}

/// What is wrong with an attribute without arguments.
pub open spec fn no_args(attr: Seq<char>, valued: bool) -> Seq<char> {
    crate::text::filled(
        if valued {
            EXPECTED_PARENS@
        } else {
            EXPECTED_ARGS@
        },
        seq![
            if is_inner(attr) {
                INNER@
            } else {
                OUTER@
            },
        ],
    )
}

/// The arguments of one attribute: none for an attribute of someone else.
pub open spec fn attr_items(context: Context, attr: Seq<char>) -> MetaItemsView {
    match rillet_attr(attr) {
        RilletAttrView::Other => MetaItemsView { items: seq![], error: None },
        RilletAttrView::Malformed { valued } => MetaItemsView {
            items: seq![],
            error: Some(no_args(attr, valued)),
        },
        RilletAttrView::Args { inner } => items(context, inner),
    }
}

/// The arguments of the `rillet` attributes among the first `n`, in order.
pub open spec fn all_items(context: Context, attrs: Seq<Seq<char>>, n: nat) -> MetaItemsView
    decreases n,
{
    if n == 0 {
        MetaItemsView { items: seq![], error: None }
    } else {
        let before = all_items(context, attrs, (n - 1) as nat);
        if before.error is Some {
            before
        } else {
            let more = attr_items(context, attrs[n - 1]);
            MetaItemsView { items: before.items + more.items, error: more.error }
        }
    }
}

/// The arguments of all `rillet` attributes, in order.
pub open spec fn attrs_items(context: Context, attrs: Seq<Seq<char>>) -> MetaItemsView {
    all_items(context, attrs, attrs.len())
}

/// Nothing is read behind an error.
proof fn lemma_all_items_error(context: Context, attrs: Seq<Seq<char>>, n: nat, m: nat)
    requires
        n <= m,
        all_items(context, attrs, n).error is Some,
    ensures
        all_items(context, attrs, m) == all_items(context, attrs, n),
    decreases m,
{
    if n < m {
        lemma_all_items_error(context, attrs, n, (m - 1) as nat);
    }
}

/// Reads the arguments of one attribute.
pub fn parse_attr(context: Context, attr: &str) -> (parsed: MetaItems)
    ensures
        parsed@ == attr_items(context, attr@),
{
    match read_attr(attr) {
        RilletAttr::Args { inner } => parse_items(context, inner.as_str()),
        other => {
            let items: Vec<MetaItem> = Vec::new();
            assert(crate::text::views_of(items@) =~= seq![]);
            let error = match other {
                RilletAttr::Malformed { valued } => {
                    let template = if valued {
                        EXPECTED_PARENS
                    } else {
                        EXPECTED_ARGS
                    };
                    let start = if read_inner(attr) {
                        INNER
                    } else {
                        OUTER
                    };
                    Some(fill1(template, start))
                },
                _ => None,
            };
            MetaItems { items, error }
        },
    }
}

/// Reads the arguments of all `rillet` attributes.
pub fn parse_attrs(context: Context, attrs: &Vec<String>) -> (parsed: MetaItems)
    ensures
        parsed@ == attrs_items(context, crate::text::views_of(attrs@)),
{
    let ghost texts = crate::text::views_of(attrs@);
    let mut parsed: Vec<MetaItem> = Vec::new();
    assert(crate::text::views_of(parsed@) =~= seq![]);
    for i in 0..attrs.len()
        invariant
            texts == crate::text::views_of(attrs@),
            all_items(context, texts, i as nat).items == crate::text::views_of(parsed@),
            all_items(context, texts, i as nat).error is None,
    {
        let found = parse_attr(context, attrs[i].as_str());
        let mut more = found.items;
        let ghost before = crate::text::views_of(parsed@);
        let ghost added = crate::text::views_of(more@);
        parsed.append(&mut more);
        assert(crate::text::views_of(parsed@) =~= before + added);
        if let Some(message) = found.error {
            proof {
                lemma_all_items_error(context, texts, (i + 1) as nat, texts.len());
            }
            return MetaItems { items: parsed, error: Some(message) };
        }
    }
    MetaItems { items: parsed, error: None }
}

} // verus!
