//! The roles that attributes give to the methods of an impl block.

use crate::macros::attrs::{
    Context, EXPECTED_COMMA, EXPECTED_EQUALS, MetaItem, MetaItemView, MetaItems, MetaItemsView,
    MetaValue, MetaValueView, parse_attrs, parse_items,
};
use crate::macros::syntax::{ArgParts, ArgView, parse_arg};
use vstd::prelude::*;

verus! {

pub const COMMAND: &'static str = "command";

pub const DIRECT: &'static str = "direct";

pub const DIRECT_MUT: &'static str = "direct_mut";

pub const TASK: &'static str = "task";

pub const FROM: &'static str = "from";

pub const WATCH: &'static str = "watch";

pub const OP: &'static str = "op";

pub const EXECUTE: &'static str = "execute";

pub const TIMEOUT: &'static str = "timeout";

/// What is wrong with an argument no method can have.
pub const UNKNOWN_ATTRIBUTE: &'static str =
    "unknown rillet attribute; expected `command`, `direct`, `direct_mut`, `task`, `op`, `op(execute = <method>, timeout = <reason>)`, `from = <field>`, or `watch = <field>`";

/// What is wrong with the arguments of an op whose outcome arrives later.
pub const EXPECTED_DEFERRED: &'static str =
    "expected `op(execute = <method>, timeout = <reason>)`";

/// What is wrong with a parameter that is no lone name.
pub const EXPECTED_NAMES: &'static str = "rillet handler parameters must be simple identifiers";

/// How an op concludes.
pub enum OpRole {
    /// With the result its handler returns.
    Immediate,
    /// With an outcome that arrives later.
    Deferred { execute: String, timeout: String },
}

/// How an op concludes, as mathematics.
pub enum OpRoleView {
    Immediate,
    Deferred { execute: Seq<char>, timeout: Seq<char> },
}

impl View for OpRole {
    type V = OpRoleView;

    open spec fn view(&self) -> OpRoleView {
        match self {
            OpRole::Immediate => OpRoleView::Immediate,
            OpRole::Deferred { execute, timeout } => OpRoleView::Deferred {
                execute: execute@,
                timeout: timeout@,
            },
        }
    }
}

/// The roles a method's attributes name.
pub struct MethodAttrs {
    pub is_command: bool,
    pub is_direct: bool,
    pub is_direct_mut: bool,
    pub is_task: bool,
    pub op: Option<OpRole>,
    pub from_field: Option<String>,
    pub watch_field: Option<String>,
}

/// The roles a method's attributes name, as mathematics.
pub struct MethodAttrsView {
    pub is_command: bool,
    pub is_direct: bool,
    pub is_direct_mut: bool,
    pub is_task: bool,
    pub op: Option<OpRoleView>,
    pub from_field: Option<Seq<char>>,
    pub watch_field: Option<Seq<char>>,
}

impl View for MethodAttrs {
    type V = MethodAttrsView;

    open spec fn view(&self) -> MethodAttrsView {
        MethodAttrsView {
            is_command: self.is_command,
            is_direct: self.is_direct,
            is_direct_mut: self.is_direct_mut,
            is_task: self.is_task,
            op: match self.op {
                Some(op) => Some(op@),
                None => None,
            },
            from_field: crate::macros::syntax::optional(self.from_field),
            watch_field: crate::macros::syntax::optional(self.watch_field),
        }
    }
}

/// No roles.
pub open spec fn no_roles() -> MethodAttrsView {
    MethodAttrsView {
        is_command: false,
        is_direct: false,
        is_direct_mut: false,
        is_task: false,
        op: None,
        from_field: None,
        watch_field: None,
    }
}

/// The field an argument names behind `=`.
pub open spec fn field_of(value: MetaValueView) -> Result<Seq<char>, Seq<char>> {
    match value {
        MetaValueView::Assigned { expr } => Ok(expr),
        _ => Err(EXPECTED_EQUALS@),
    }
}

/// The execute method and the timeout reason among arguments.
pub open spec fn deferred(items: Seq<MetaItemView>, n: nat) -> Result<
    (Option<Seq<char>>, Option<Seq<char>>),
    Seq<char>,
>
    decreases n,
{
    if n == 0 {
        Ok((None, None))
    } else {
        match deferred(items, (n - 1) as nat) {
            Err(message) => Err(message),
            Ok((execute, timeout)) => {
                let item = items[n - 1];
                if item.name == EXECUTE@ {
                    match field_of(item.value) {
                        Ok(field) => Ok((Some(field), timeout)),
                        Err(message) => Err(message),
                    }
                } else if item.name == TIMEOUT@ {
                    match item.value {
                        MetaValueView::Assigned { expr } => Ok((execute, Some(expr))),
                        _ => Err(EXPECTED_EQUALS@),
                    }
                } else {
                    Err(EXPECTED_DEFERRED@)
                }
            },
        }
    }
}

/// How the op with the given arguments concludes.
pub open spec fn op_role(parsed: MetaItemsView) -> Result<OpRoleView, Seq<char>> {
    match deferred(parsed.items, parsed.items.len()) {
        Err(message) => Err(message),
        Ok((execute, timeout)) => match parsed.error {
            Some(message) => Err(message),
            None => match (execute, timeout) {
                (Some(execute), Some(timeout)) => Ok(OpRoleView::Deferred { execute, timeout }),
                _ => Err(EXPECTED_DEFERRED@),
            },
        },
    }
}

/// The roles with one more argument.
pub open spec fn with_item(roles: MethodAttrsView, item: MetaItemView) -> Result<
    MethodAttrsView,
    Seq<char>,
> {
    if item.name == COMMAND@ {
        match item.value {
            MetaValueView::Bare => Ok(MethodAttrsView { is_command: true, ..roles }),
            _ => Err(EXPECTED_COMMA@),
        }
    } else if item.name == DIRECT@ {
        match item.value {
            MetaValueView::Bare => Ok(MethodAttrsView { is_direct: true, ..roles }),
            _ => Err(EXPECTED_COMMA@),
        }
    } else if item.name == DIRECT_MUT@ {
        match item.value {
            MetaValueView::Bare => Ok(MethodAttrsView { is_direct_mut: true, ..roles }),
            _ => Err(EXPECTED_COMMA@),
        }
    } else if item.name == TASK@ {
        match item.value {
            MetaValueView::Bare => Ok(MethodAttrsView { is_task: true, ..roles }),
            _ => Err(EXPECTED_COMMA@),
        }
    } else if item.name == OP@ {
        match item.value {
            MetaValueView::Bare => Ok(
                MethodAttrsView { op: Some(OpRoleView::Immediate), ..roles },
            ),
            MetaValueView::List { inner } => match op_role(
                crate::macros::attrs::items(Context::Deferred, inner),
            ) {
                Ok(role) => Ok(MethodAttrsView { op: Some(role), ..roles }),
                Err(message) => Err(message),
            },
            MetaValueView::Assigned { .. } => Err(EXPECTED_COMMA@),
        }
    } else if item.name == FROM@ {
        match field_of(item.value) {
            Ok(field) => Ok(MethodAttrsView { from_field: Some(field), ..roles }),
            Err(message) => Err(message),
        }
    } else if item.name == WATCH@ {
        match field_of(item.value) {
            Ok(field) => Ok(MethodAttrsView { watch_field: Some(field), ..roles }),
            Err(message) => Err(message),
        }
    } else {
        Err(UNKNOWN_ATTRIBUTE@)
    }
}

/// The roles that the first `n` arguments name.
pub open spec fn roles_of(items: Seq<MetaItemView>, n: nat) -> Result<MethodAttrsView, Seq<char>>
    decreases n,
{
    if n == 0 {
        Ok(no_roles())
    } else {
        match roles_of(items, (n - 1) as nat) {
            Err(message) => Err(message),
            Ok(roles) => with_item(roles, items[n - 1]),
        }
    }
}

/// The roles that arguments name, or what is wrong with the first that is
/// malformed.
pub open spec fn method_roles(parsed: MetaItemsView) -> Result<MethodAttrsView, Seq<char>> {
    match roles_of(parsed.items, parsed.items.len()) {
        Err(message) => Err(message),
        Ok(roles) => match parsed.error {
            Some(message) => Err(message),
            None => Ok(roles),
        },
    }
}

proof fn lemma_deferred_err(items: Seq<MetaItemView>, n: nat, m: nat)
    requires
        n <= m,
        deferred(items, n) is Err,
    ensures
        deferred(items, m) == deferred(items, n),
    decreases m,
{
    if n < m {
        lemma_deferred_err(items, n, (m - 1) as nat);
    }
}

proof fn lemma_roles_err(items: Seq<MetaItemView>, n: nat, m: nat)
    requires
        n <= m,
        roles_of(items, n) is Err,
    ensures
        roles_of(items, m) == roles_of(items, n),
    decreases m,
{
    if n < m {
        lemma_roles_err(items, n, (m - 1) as nat);
    }
}

/// Whether a name is a keyword of the attributes.
pub fn named(name: &String, keyword: &str) -> (same: bool)
    ensures
        same == (name@ == keyword@),
{
    *name == keyword.to_owned()
}

/// Reads the field an argument names behind `=`.
fn read_field(value: &MetaValue) -> (field: Result<String, String>)
    ensures
        match field {
            Ok(field) => field_of(value@) == Ok::<_, Seq<char>>(field@),
            Err(message) => field_of(value@) == Err::<Seq<char>, _>(message@),
        },
{
    match value {
        MetaValue::Assigned { expr } => Ok(expr.clone()),
        _ => Err(EXPECTED_EQUALS.to_owned()),
    }
}

/// Reads how the op with the given arguments concludes.
pub fn read_op_role(parsed: &MetaItems) -> (role: Result<OpRole, String>)
    ensures
        match role {
            Ok(role) => op_role(parsed@) == Ok::<_, Seq<char>>(role@),
            Err(message) => op_role(parsed@) == Err::<OpRoleView, _>(message@),
        },
{
    let ghost items = parsed@.items;
    let mut execute: Option<String> = None;
    let mut timeout: Option<String> = None;
    for i in 0..parsed.items.len()
        invariant
            items == parsed@.items,
            deferred(items, i as nat) == Ok::<_, Seq<char>>(
                (
                    crate::macros::syntax::optional(execute),
                    crate::macros::syntax::optional(timeout),
                ),
            ),
    {
        let item = &parsed.items[i];
        assert(items[i as int] == item@);
        if named(&item.name, EXECUTE) {
            match read_field(&item.value) {
                Ok(field) => {
                    execute = Some(field);
                },
                Err(message) => {
                    proof {
                        lemma_deferred_err(items, (i + 1) as nat, items.len());
                    }
                    return Err(message);
                },
            }
        } else if named(&item.name, TIMEOUT) {
            match &item.value {
                MetaValue::Assigned { expr } => {
                    timeout = Some(expr.clone());
                },
                _ => {
                    proof {
                        lemma_deferred_err(items, (i + 1) as nat, items.len());
                    }
                    return Err(EXPECTED_EQUALS.to_owned());
                },
            }
        } else {
            proof {
                lemma_deferred_err(items, (i + 1) as nat, items.len());
            }
            return Err(EXPECTED_DEFERRED.to_owned());
        }
    }
    if let Some(message) = &parsed.error {
        return Err(message.clone());
    }
    match (execute, timeout) {
        (Some(execute), Some(timeout)) => Ok(OpRole::Deferred { execute, timeout }),
        _ => Err(EXPECTED_DEFERRED.to_owned()),
    }
}

/// Adds one argument to the roles.
pub fn add_item(roles: MethodAttrs, item: &MetaItem) -> (result: Result<MethodAttrs, String>)
    ensures
        match result {
            Ok(more) => with_item(roles@, item@) == Ok::<_, Seq<char>>(more@),
            Err(message) => with_item(roles@, item@) == Err::<MethodAttrsView, _>(message@),
        },
{
    let mut more = roles;
    let mut bare = true;
    if named(&item.name, COMMAND) {
        more.is_command = true;
    } else if named(&item.name, DIRECT) {
        more.is_direct = true;
    } else if named(&item.name, DIRECT_MUT) {
        more.is_direct_mut = true;
    } else if named(&item.name, TASK) {
        more.is_task = true;
    } else if named(&item.name, OP) {
        if let MetaValue::List { inner } = &item.value {
            match read_op_role(&parse_items(Context::Deferred, inner.as_str())) {
                Ok(role) => {
                    more.op = Some(role);
                    bare = false;
                },
                Err(message) => {
                    return Err(message);
                },
            }
        } else {
            more.op = Some(OpRole::Immediate);
        }
    } else if named(&item.name, FROM) {
        match read_field(&item.value) {
            Ok(field) => {
                more.from_field = Some(field);
                bare = false;
            },
            Err(message) => {
                return Err(message);
            },
        }
    } else if named(&item.name, WATCH) {
        match read_field(&item.value) {
            Ok(field) => {
                more.watch_field = Some(field);
                bare = false;
            },
            Err(message) => {
                return Err(message);
            },
        }
    } else {
        return Err(UNKNOWN_ATTRIBUTE.to_owned());
    }
    match item.value {
        MetaValue::Bare => Ok(more),
        _ => if bare {
            Err(EXPECTED_COMMA.to_owned())
        } else {
            Ok(more)
        },
    }
}

/// Reads the roles that arguments name.
pub fn read_roles(parsed: &MetaItems) -> (roles: Result<MethodAttrs, String>)
    ensures
        match roles {
            Ok(roles) => method_roles(parsed@) == Ok::<_, Seq<char>>(roles@),
            Err(message) => method_roles(parsed@) == Err::<MethodAttrsView, _>(message@),
        },
{
    let ghost items = parsed@.items;
    let mut roles = MethodAttrs {
        is_command: false,
        is_direct: false,
        is_direct_mut: false,
        is_task: false,
        op: None,
        from_field: None,
        watch_field: None,
    };
    for i in 0..parsed.items.len()
        invariant
            items == parsed@.items,
            roles_of(items, i as nat) == Ok::<_, Seq<char>>(roles@),
    {
        assert(items[i as int] == parsed.items@[i as int]@);
        match add_item(roles, &parsed.items[i]) {
            Ok(more) => {
                roles = more;
            },
            Err(message) => {
                proof {
                    lemma_roles_err(items, (i + 1) as nat, items.len());
                }
                return Err(message);
            },
        }
    }
    match &parsed.error {
        Some(message) => Err(message.clone()),
        None => Ok(roles),
    }
}

/// The roles a method's attributes name.
pub open spec fn method_attrs(attrs: Seq<Seq<char>>) -> Result<MethodAttrsView, Seq<char>> {
    method_roles(crate::macros::attrs::attrs_items(Context::Method, attrs))
}

/// Reads the roles a method's attributes name.
pub fn parse_method_attrs(attrs: &Vec<String>) -> (roles: Result<MethodAttrs, String>)
    ensures
        match roles {
            Ok(roles) => method_attrs(crate::text::views_of(attrs@)) == Ok::<_, Seq<char>>(roles@),
            Err(message) => method_attrs(crate::text::views_of(attrs@)) == Err::<
                MethodAttrsView,
                _,
            >(message@),
        },
{
    read_roles(&parse_attrs(Context::Method, attrs))
}

/// A parameter: its name and its type.
pub struct Param {
    pub name: String,
    pub ty: String,
}

/// A parameter, as mathematics.
pub struct ParamView {
    pub name: Seq<char>,
    pub ty: Seq<char>,
}

impl View for Param {
    type V = ParamView;

    open spec fn view(&self) -> ParamView {
        ParamView { name: self.name@, ty: self.ty@ }
    }
}

impl Clone for Param {
    fn clone(&self) -> (copy: Self)
        ensures
            copy@ == self@,
    {
        Param { name: self.name.clone(), ty: self.ty.clone() }
    }
}

/// The named ones among the first `n` parameters, or what is wrong with the
/// first under another pattern.
pub open spec fn params_of(args: Seq<ArgView>, n: nat) -> Result<Seq<ParamView>, Seq<char>>
    decreases n,
{
    if n == 0 {
        Ok(seq![])
    } else {
        match params_of(args, (n - 1) as nat) {
            Err(message) => Err(message),
            Ok(params) => match args[n - 1] {
                ArgView::Receiver => Ok(params),
                ArgView::Named { name, ty } => Ok(params.push(ParamView { name, ty })),
                ArgView::Pattern { .. } => Err(EXPECTED_NAMES@),
            },
        }
    }
}

/// The named parameters, or what is wrong with the first under another
/// pattern.
pub open spec fn all_params(args: Seq<ArgView>) -> Result<Seq<ParamView>, Seq<char>> {
    params_of(args, args.len())
}

/// The first parameter that is no receiver, from a position on.
pub open spec fn param_from(args: Seq<ArgView>, i: int) -> Result<Option<ParamView>, Seq<char>>
    decreases args.len() - i,
{
    if !(0 <= i < args.len()) {
        Ok(None)
    } else {
        match args[i] {
            ArgView::Receiver => param_from(args, i + 1),
            ArgView::Named { name, ty } => Ok(Some(ParamView { name, ty })),
            ArgView::Pattern { .. } => Err(EXPECTED_NAMES@),
        }
    }
}

proof fn lemma_params_err(args: Seq<ArgView>, n: nat, m: nat)
    requires
        n <= m,
        params_of(args, n) is Err,
    ensures
        params_of(args, m) == params_of(args, n),
    decreases m,
{
    if n < m {
        lemma_params_err(args, n, (m - 1) as nat);
    }
}

/// Extracts the first parameter that is no receiver.
pub fn extract_param(args: &Vec<ArgParts>) -> (param: Result<Option<Param>, String>)
    ensures
        match param {
            Ok(Some(param)) => param_from(crate::text::views_of(args@), 0) == Ok::<_, Seq<char>>(
                Some(param@),
            ),
            Ok(None) => param_from(crate::text::views_of(args@), 0) == Ok::<_, Seq<char>>(
                None::<ParamView>,
            ),
            Err(message) => param_from(crate::text::views_of(args@), 0) == Err::<
                Option<ParamView>,
                _,
            >(message@),
        },
{
    let ghost views = crate::text::views_of(args@);
    for i in 0..args.len()
        invariant
            views == crate::text::views_of(args@),
            param_from(views, 0) == param_from(views, i as int),
    {
        assert(views[i as int] == args@[i as int]@);
        match &args[i] {
            ArgParts::Receiver => {},
            ArgParts::Named { name, ty } => {
                return Ok(Some(Param { name: name.clone(), ty: ty.clone() }));
            },
            ArgParts::Pattern { .. } => {
                return Err(EXPECTED_NAMES.to_owned());
            },
        }
    }
    Ok(None)
}

/// Extracts the named parameters.
pub fn extract_all_params(args: &Vec<ArgParts>) -> (params: Result<Vec<Param>, String>)
    ensures
        match params {
            Ok(params) => all_params(crate::text::views_of(args@)) == Ok::<_, Seq<char>>(
                crate::text::views_of(params@),
            ),
            Err(message) => all_params(crate::text::views_of(args@)) == Err::<Seq<ParamView>, _>(
                message@,
            ),
        },
{
    let ghost views = crate::text::views_of(args@);
    let mut params: Vec<Param> = Vec::new();
    assert(crate::text::views_of(params@) =~= seq![]);
    for i in 0..args.len()
        invariant
            views == crate::text::views_of(args@),
            params_of(views, i as nat) == Ok::<_, Seq<char>>(crate::text::views_of(params@)),
    {
        assert(views[i as int] == args@[i as int]@);
        match &args[i] {
            ArgParts::Receiver => {},
            ArgParts::Named { name, ty } => {
                let param = Param { name: name.clone(), ty: ty.clone() };
                let ghost before = crate::text::views_of(params@);
                params.push(param);
                assert(crate::text::views_of(params@) =~= before.push(param@));
            },
            ArgParts::Pattern { .. } => {
                proof {
                    lemma_params_err(views, (i + 1) as nat, views.len());
                }
                return Err(EXPECTED_NAMES.to_owned());
            },
        }
    }
    Ok(params)
}

/// The parameter that a text spells; a text that spells none is passed over
/// like a receiver.
pub open spec fn arg_of(input: Seq<char>) -> ArgView {
    match crate::macros::syntax::arg(input) {
        Some(arg) => arg,
        None => ArgView::Receiver,
    }
}

/// The parameters that texts spell.
pub open spec fn args_of(inputs: Seq<Seq<char>>) -> Seq<ArgView> {
    inputs.map_values(|input: Seq<char>| arg_of(input))
}

/// Reads parameters.
pub fn parse_args(inputs: &Vec<String>) -> (args: Vec<ArgParts>)
    ensures
        crate::text::views_of(args@) == args_of(crate::text::views_of(inputs@)),
{
    let mut args: Vec<ArgParts> = Vec::new();
    for i in 0..inputs.len()
        invariant
            args.len() == i,
            forall|j: int|
                0 <= j < i ==> (#[trigger] args@[j])@ == arg_of(inputs@[j]@),
    {
        args.push(
            match parse_arg(inputs[i].as_str()) {
                Some(arg) => arg,
                None => ArgParts::Receiver,
            },
        );
    }
    assert(crate::text::views_of(args@) =~= args_of(crate::text::views_of(inputs@)));
    args
}

} // verus!
