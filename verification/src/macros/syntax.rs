//! Rust syntax, as `syn` and `proc_macro2` read it.
//!
//! Source code is text on both sides of every function here. All of them
//! run on `proc_macro2`'s own token streams, inside a procedural macro as
//! well as outside of one, so that what they return is a function of the
//! text alone.

use proc_macro2::{Delimiter, Spacing, TokenStream, TokenTree};
use quote::ToTokens;
use syn::{Data, DataStruct, DeriveInput, Fields};
use vstd::prelude::*;

verus! {

/// What kind of token tree one is.
#[derive(Clone, Copy, Debug, PartialEq, Eq, Structural)]
pub enum TreeKind {
    Ident,
    Literal,
    /// A punctuation character with a space behind it or at the end.
    Alone,
    /// A punctuation character with another right behind it.
    Joint,
    /// A group in round brackets.
    Parens,
    /// A group in square brackets.
    Brackets,
    /// A group in braces.
    Braces,
    /// A group without delimiters.
    Bare,
}

/// One token tree: its kind, and its text or that of its contents.
pub struct Tree(pub TreeKind, pub String);

/// A token tree, as mathematics.
pub struct TreeView {
    pub kind: TreeKind,
    pub text: Seq<char>,
}

impl View for Tree {
    type V = TreeView;

    open spec fn view(&self) -> TreeView {
        TreeView { kind: self.0, text: self.1@ }
    }
}

/// The token trees that a text lexes to, if it lexes.
pub uninterp spec fn lexed(text: Seq<char>) -> Option<Seq<TreeView>>;

/// `proc_macro2::TokenStream::from_str`, one level deep: the kinds and texts
/// of a text's token trees, or nothing where it does not lex. They are a
/// function of the text alone.
#[verifier::external_body]
pub(crate) fn lex(text: &str) -> (trees: Option<Vec<Tree>>)
    ensures
        match trees {
            Some(trees) => lexed(text@) == Some(crate::text::views_of(trees@)),
            None => lexed(text@) is None,
        },
{
    proc_macro2::fallback::force();
    let stream: TokenStream = text.parse().ok()?;
    let convert = |tree| match tree {
        TokenTree::Ident(t) => Tree(TreeKind::Ident, t.to_string()),
        TokenTree::Literal(t) => Tree(TreeKind::Literal, t.to_string()),
        TokenTree::Punct(t) => Tree(match t.spacing() {
            Spacing::Alone => TreeKind::Alone, Spacing::Joint => TreeKind::Joint,
        }, t.as_char().to_string()),
        TokenTree::Group(t) => Tree(match t.delimiter() {
            Delimiter::Parenthesis => TreeKind::Parens, Delimiter::Bracket => TreeKind::Brackets,
            Delimiter::Brace => TreeKind::Braces, Delimiter::None => TreeKind::Bare,
        }, t.stream().to_string()),
    };
    Some(stream.into_iter().map(convert).collect())
}

/// A leading expression: its text, and those of the token trees behind it.
pub struct Leading {
    pub expr: String,
    pub rest: Vec<String>,
}

/// A leading expression, as mathematics.
pub struct LeadingView {
    pub expr: Seq<char>,
    pub rest: Seq<Seq<char>>,
}

impl View for Leading {
    type V = LeadingView;

    open spec fn view(&self) -> LeadingView {
        LeadingView { expr: self.expr@, rest: crate::text::views_of(self.rest@) }
    }
}

/// The expression a text starts with, or why it starts with none.
pub uninterp spec fn led(text: Seq<char>) -> Result<LeadingView, Seq<char>>;

/// `syn`'s parser of expressions, on the front of a text: the longest
/// expression it starts with and the token trees behind it, or
/// the message of the parse error. They are a function of the text alone.
#[verifier::external_body]
pub(crate) fn leading_expr(text: &str) -> (leading: Result<Leading, String>)
    ensures
        match leading {
            Ok(leading) => led(text@) == Ok::<_, Seq<char>>(leading@),
            Err(message) => led(text@) == Err::<LeadingView, _>(message@),
        },
{
    proc_macro2::fallback::force();
    let split = |input: syn::parse::ParseStream| {
        let expr: syn::Expr = input.parse()?;
        let rest: TokenStream = input.parse()?;
        let rest = rest.into_iter().map(|tree| tree.to_string()).collect();
        Ok(Leading { expr: expr.to_token_stream().to_string(), rest })
    };
    syn::parse::Parser::parse_str(split, text).map_err(|error: syn::Error| error.to_string())
}

/// The identifier a text is, if it is one.
pub uninterp spec fn identifier(text: Seq<char>) -> Option<Seq<char>>;

/// `syn::parse_str` for an identifier, which a keyword is not. The result is
/// a function of the text alone.
#[verifier::external_body]
pub(crate) fn parse_ident(text: &str) -> (ident: Option<String>)
    ensures
        optional(ident) == identifier(text@),
{
    proc_macro2::fallback::force();
    syn::parse_str::<syn::Ident>(text).ok().map(|ident| ident.to_string())
}

/// A type: its text, its name if it is a lone identifier, and the names of
/// its path's segments if it is a path.
pub struct TypeParts {
    pub text: String,
    pub ident: Option<String>,
    pub segments: Option<Vec<String>>,
}

/// A type's parts, as mathematics.
pub struct TypePartsView {
    pub text: Seq<char>,
    pub ident: Option<Seq<char>>,
    pub segments: Option<Seq<Seq<char>>>,
}

/// An optional text, as mathematics.
pub open spec fn optional(text: Option<String>) -> Option<Seq<char>> {
    match text {
        Some(text) => Some(text@),
        None => None,
    }
}

impl View for TypeParts {
    type V = TypePartsView;

    open spec fn view(&self) -> TypePartsView {
        TypePartsView {
            text: self.text@,
            ident: optional(self.ident),
            segments: match self.segments {
                Some(segments) => Some(crate::text::views_of(segments@)),
                None => None,
            },
        }
    }
}

/// The type a text spells, or why it spells none.
pub uninterp spec fn typed(text: Seq<char>) -> Result<TypePartsView, Seq<char>>;

/// `syn::parse_str` for a type: its parts, or the message of the parse
/// error. They are a function of the text alone.
#[verifier::external_body]
pub(crate) fn parse_type(text: &str) -> (parts: Result<TypeParts, String>)
    ensures
        match parts {
            Ok(parts) => typed(text@) == Ok::<_, Seq<char>>(parts@),
            Err(message) => typed(text@) == Err::<TypePartsView, _>(message@),
        },
{
    proc_macro2::fallback::force();
    let ty: syn::Type = syn::parse_str(text).map_err(|error| error.to_string())?;
    let text = ty.to_token_stream().to_string();
    Ok(match ty {
        syn::Type::Path(ty) => TypeParts {
            text,
            ident: ty.path.get_ident().map(|ident| ident.to_string()),
            segments: Some(ty.path.segments.iter().map(|part| part.ident.to_string()).collect()),
        },
        _ => TypeParts { text, ident: None, segments: None },
    })
}

/// The number an integer literal holds, the message why it holds no
/// `u64`, or nothing where a text is no integer literal.
pub uninterp spec fn integer(text: Seq<char>) -> Option<Result<u64, Seq<char>>>;

/// `syn::LitInt::base10_parse` on an expression: the value of an integer
/// literal or the message why it does not fit, or nothing where the text is
/// no integer literal. They are a function of the text alone.
#[verifier::external_body]
pub(crate) fn parse_integer(text: &str) -> (value: Option<Result<u64, String>>)
    ensures
        match value {
            Some(Ok(value)) => integer(text@) == Some(Ok::<_, Seq<char>>(value)),
            Some(Err(message)) => integer(text@) == Some(Err::<u64, _>(message@)),
            None => integer(text@) is None,
        },
{
    proc_macro2::fallback::force();
    match syn::parse_str(text) {
        Ok(syn::Expr::Lit(syn::ExprLit { lit: syn::Lit::Int(lit), .. })) => Some(
            lit.base10_parse().map_err(|error| error.to_string()),
        ),
        _ => None,
    }
}

/// An impl block: its type, its generic parameters, its where clause and
/// its items.
pub struct ImplParts {
    pub self_ty: String,
    pub generics: String,
    pub where_clause: String,
    pub items: Vec<String>,
}

/// An impl block's parts, as mathematics.
pub struct ImplPartsView {
    pub self_ty: Seq<char>,
    pub generics: Seq<char>,
    pub where_clause: Seq<char>,
    pub items: Seq<Seq<char>>,
}

impl View for ImplParts {
    type V = ImplPartsView;

    open spec fn view(&self) -> ImplPartsView {
        ImplPartsView {
            self_ty: self.self_ty@,
            generics: self.generics@,
            where_clause: self.where_clause@,
            items: crate::text::views_of(self.items@),
        }
    }
}

/// The impl block a text spells, or why it spells none.
pub uninterp spec fn impl_block(text: Seq<char>) -> Result<ImplPartsView, Seq<char>>;

/// `syn::parse_str` for an impl block: the texts of its parts, or the
/// message of the parse error. They are a function of the text alone.
#[verifier::external_body]
pub(crate) fn parse_impl(text: &str) -> (parts: Result<ImplParts, String>)
    ensures
        match parts {
            Ok(parts) => impl_block(text@) == Ok::<_, Seq<char>>(parts@),
            Err(message) => impl_block(text@) == Err::<ImplPartsView, _>(message@),
        },
{
    proc_macro2::fallback::force();
    let block: syn::ItemImpl = syn::parse_str(text).map_err(|error| error.to_string())?;
    Ok(ImplParts {
        self_ty: block.self_ty.to_token_stream().to_string(),
        generics: block.generics.to_token_stream().to_string(),
        where_clause: block.generics.where_clause.to_token_stream().to_string(),
        items: block.items.iter().map(|item| item.to_token_stream().to_string()).collect(),
    })
}

/// A method: its attributes, its visibility, its `default` keyword if it
/// has one, its signature, its body in braces; and out of the signature its
/// name, its parameters and its return type with the arrow.
pub struct MethodParts {
    pub attrs: Vec<String>,
    pub vis: String,
    pub defaultness: String,
    pub signature: String,
    pub body: String,
    pub name: String,
    pub inputs: Vec<String>,
    pub output: String,
}

/// A method's parts, as mathematics.
pub struct MethodPartsView {
    pub attrs: Seq<Seq<char>>,
    pub vis: Seq<char>,
    pub defaultness: Seq<char>,
    pub signature: Seq<char>,
    pub body: Seq<char>,
    pub name: Seq<char>,
    pub inputs: Seq<Seq<char>>,
    pub output: Seq<char>,
}

impl View for MethodParts {
    type V = MethodPartsView;

    open spec fn view(&self) -> MethodPartsView {
        MethodPartsView {
            attrs: crate::text::views_of(self.attrs@),
            vis: self.vis@,
            defaultness: self.defaultness@,
            signature: self.signature@,
            body: self.body@,
            name: self.name@,
            inputs: crate::text::views_of(self.inputs@),
            output: self.output@,
        }
    }
}

/// The method an impl item is, if it is one.
pub uninterp spec fn method(item: Seq<char>) -> Option<MethodPartsView>;

/// `syn::parse_str` for an impl item: the texts of its parts if it is a
/// method. They are a function of the text alone.
#[verifier::external_body]
pub(crate) fn parse_method(item: &str) -> (parts: Option<MethodParts>)
    ensures
        match parts {
            Some(parts) => method(item@) == Some(parts@),
            None => method(item@) is None,
        },
{
    proc_macro2::fallback::force();
    match syn::parse_str(item) {
        Ok(syn::ImplItem::Fn(m)) => Some(MethodParts {
            attrs: m.attrs.iter().map(|attr| attr.to_token_stream().to_string()).collect(),
            vis: m.vis.to_token_stream().to_string(),
            defaultness: m.defaultness.to_token_stream().to_string(),
            signature: m.sig.to_token_stream().to_string(),
            body: m.block.to_token_stream().to_string(),
            name: m.sig.ident.to_string(),
            inputs: m.sig.inputs.iter().map(|arg| arg.to_token_stream().to_string()).collect(),
            output: m.sig.output.to_token_stream().to_string(),
        }),
        _ => None,
    }
}

/// A parameter of a method.
pub enum ArgParts {
    /// `self` in any form.
    Receiver,
    /// A named parameter and its type.
    Named { name: String, ty: String },
    /// A parameter under another pattern.
    Pattern { pattern: String },
}

/// A parameter, as mathematics.
pub enum ArgView {
    Receiver,
    Named { name: Seq<char>, ty: Seq<char> },
    Pattern { pattern: Seq<char> },
}

impl View for ArgParts {
    type V = ArgView;

    open spec fn view(&self) -> ArgView {
        match self {
            ArgParts::Receiver => ArgView::Receiver,
            ArgParts::Named { name, ty } => ArgView::Named { name: name@, ty: ty@ },
            ArgParts::Pattern { pattern } => ArgView::Pattern { pattern: pattern@ },
        }
    }
}

/// The parameter a text spells, if it spells one.
pub uninterp spec fn arg(text: Seq<char>) -> Option<ArgView>;

/// `syn::parse_str` for a parameter: its name and type, or its pattern, or
/// nothing where the text is no parameter. They are a function of the text
/// alone.
#[verifier::external_body]
pub(crate) fn parse_arg(text: &str) -> (parts: Option<ArgParts>)
    ensures
        match parts {
            Some(parts) => arg(text@) == Some(parts@),
            None => arg(text@) is None,
        },
{
    proc_macro2::fallback::force();
    Some(match syn::parse_str(text).ok()? {
        syn::FnArg::Receiver(_) => ArgParts::Receiver,
        syn::FnArg::Typed(typed) => match *typed.pat {
            syn::Pat::Ident(pat) => ArgParts::Named {
                name: pat.ident.to_string(),
                ty: typed.ty.to_token_stream().to_string(),
            },
            other => ArgParts::Pattern { pattern: other.to_token_stream().to_string() },
        },
    })
}

/// What a derive input declares.
#[derive(Clone, Copy, Debug, PartialEq, Eq, Structural)]
pub enum Shape {
    /// A struct with named fields.
    Named,
    /// A tuple struct or a struct without fields.
    Unnamed,
    Enum,
    Union,
}

/// A struct, enum or union: its attributes, its visibility, its name, its
/// generic parameters, its where clause and what it declares.
pub struct InputParts {
    pub attrs: Vec<String>,
    pub vis: String,
    pub name: String,
    pub generics: String,
    pub where_clause: String,
    pub shape: Shape,
}

/// A derive input's parts, as mathematics.
pub struct InputPartsView {
    pub attrs: Seq<Seq<char>>,
    pub vis: Seq<char>,
    pub name: Seq<char>,
    pub generics: Seq<char>,
    pub where_clause: Seq<char>,
    pub shape: Shape,
}

impl View for InputParts {
    type V = InputPartsView;

    open spec fn view(&self) -> InputPartsView {
        InputPartsView {
            attrs: crate::text::views_of(self.attrs@),
            vis: self.vis@,
            name: self.name@,
            generics: self.generics@,
            where_clause: self.where_clause@,
            shape: self.shape,
        }
    }
}

/// The struct, enum or union a text declares, or why it declares none.
pub uninterp spec fn input(text: Seq<char>) -> Result<InputPartsView, Seq<char>>;

/// `syn::parse_str` for a derive input: the texts of its parts, or the
/// message of the parse error. They are a function of the text alone.
#[verifier::external_body]
pub(crate) fn parse_input(text: &str) -> (parts: Result<InputParts, String>)
    ensures
        match parts {
            Ok(parts) => input(text@) == Ok::<_, Seq<char>>(parts@),
            Err(message) => input(text@) == Err::<InputPartsView, _>(message@),
        },
{
    proc_macro2::fallback::force();
    let item: DeriveInput = syn::parse_str(text).map_err(|error| error.to_string())?;
    Ok(InputParts {
        attrs: item.attrs.iter().map(|attr| attr.to_token_stream().to_string()).collect(),
        vis: item.vis.to_token_stream().to_string(),
        name: item.ident.to_string(),
        generics: item.generics.to_token_stream().to_string(),
        where_clause: item.generics.where_clause.to_token_stream().to_string(),
        shape: match item.data {
            Data::Struct(DataStruct { fields: Fields::Named(_), .. }) => Shape::Named,
            Data::Struct(_) => Shape::Unnamed,
            Data::Enum(_) => Shape::Enum,
            Data::Union(_) => Shape::Union,
        },
    })
}

/// A named field: its attributes, its visibility, its name and its type.
pub struct FieldParts {
    pub attrs: Vec<String>,
    pub vis: String,
    pub name: String,
    pub ty: String,
}

/// A named field's parts, as mathematics.
pub struct FieldPartsView {
    pub attrs: Seq<Seq<char>>,
    pub vis: Seq<char>,
    pub name: Seq<char>,
    pub ty: Seq<char>,
}

impl View for FieldParts {
    type V = FieldPartsView;

    open spec fn view(&self) -> FieldPartsView {
        FieldPartsView {
            attrs: crate::text::views_of(self.attrs@),
            vis: self.vis@,
            name: self.name@,
            ty: self.ty@,
        }
    }
}

/// The fields of the struct a text declares.
pub uninterp spec fn fields(text: Seq<char>) -> Seq<FieldPartsView>;

/// `syn::parse_str` for a derive input: the texts of the parts of a struct's
/// fields, in order; an unnamed field has an empty name, and what is no
/// struct has no fields. They are a function of the text alone.
#[verifier::external_body]
pub(crate) fn parse_fields(text: &str) -> (parts: Vec<FieldParts>)
    ensures
        crate::text::views_of(parts@) == fields(text@),
{
    proc_macro2::fallback::force();
    match syn::parse_str::<DeriveInput>(text).map(|item| item.data) {
        Ok(Data::Struct(data)) => data.fields.iter().map(|field| FieldParts {
            attrs: field.attrs.iter().map(|attr| attr.to_token_stream().to_string()).collect(),
            vis: field.vis.to_token_stream().to_string(),
            name: field.ident.to_token_stream().to_string(),
            ty: field.ty.to_token_stream().to_string(),
        }).collect(),
        _ => Vec::new(),
    }
}

/// The types of the fields of the struct a text declares, in one list, or of
/// the enum, in one list for each variant.
pub uninterp spec fn field_types(text: Seq<char>) -> Seq<Seq<Seq<char>>>;

/// `syn::parse_str` for a derive input: the types of a struct's fields in one
/// list, or those of an enum's in one list for each variant, in order; what is
/// neither has no list. They are a function of the text alone.
#[verifier::external_body]
pub(crate) fn parse_field_types(text: &str) -> (types: Vec<Vec<String>>)
    ensures
        crate::text::lists_of(types@) == field_types(text@),
{
    proc_macro2::fallback::force();
    let types = |fields: &Fields| fields.iter().map(|f| f.ty.to_token_stream().to_string()).collect();
    match syn::parse_str::<DeriveInput>(text).map(|item| item.data) {
        Ok(Data::Struct(data)) => vec![types(&data.fields)],
        Ok(Data::Enum(data)) => data.variants.iter().map(|v| types(&v.fields)).collect(),
        _ => Vec::new(),
    }
}

/// A type's generics as an impl needs them: the parameters with their
/// bounds, the arguments, and the predicates of the where clause if there
/// is one.
pub struct GenericsParts {
    pub params: String,
    pub args: String,
    pub predicates: Option<String>,
}

/// A type's generics, as mathematics.
pub struct GenericsView {
    pub params: Seq<char>,
    pub args: Seq<char>,
    pub predicates: Option<Seq<char>>,
}

impl View for GenericsParts {
    type V = GenericsView;

    open spec fn view(&self) -> GenericsView {
        GenericsView {
            params: self.params@,
            args: self.args@,
            predicates: optional(self.predicates),
        }
    }
}

/// The generics of the struct, enum or union a text declares.
pub uninterp spec fn generics(text: Seq<char>) -> Result<GenericsView, Seq<char>>;

/// `syn::Generics::split_for_impl` on a derive input: the texts of its
/// three results, the last without the keyword, or the message of the parse
/// error. They are a function of the text alone.
#[verifier::external_body]
pub(crate) fn parse_generics(text: &str) -> (parts: Result<GenericsParts, String>)
    ensures
        match parts {
            Ok(parts) => generics(text@) == Ok::<_, Seq<char>>(parts@),
            Err(message) => generics(text@) == Err::<GenericsView, _>(message@),
        },
{
    proc_macro2::fallback::force();
    let item: DeriveInput = syn::parse_str(text).map_err(|error| error.to_string())?;
    let (params, args, where_clause) = item.generics.split_for_impl();
    Ok(GenericsParts {
        params: params.to_token_stream().to_string(),
        args: args.to_token_stream().to_string(),
        predicates: where_clause.map(|clause| clause.predicates.to_token_stream().to_string()),
    })
}

} // verus!
