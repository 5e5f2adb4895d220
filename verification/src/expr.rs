//! The expression language of templates, and the pass that turns free
//! identifiers into scope positions or binding-map fields.

use vstd::prelude::*;
use crate::binding_map::{BindingMapCollector, BindingMapKeys, BindingMapView};
use crate::utils::{contains_name, last_position, scope_position, strings_view};

verus! {

/// An expression as it stands between `{{` and `}}`.
#[derive(Debug, PartialEq)]
pub enum TmplExpr {
    /// A name bound by an enclosing loop or slot, by its position in the scope.
    ScopeIndex(usize),
    /// A free identifier.
    Ident(String),
    /// The operand as a string, with `undefined` as the empty string.
    ToStringWithoutUndefined(Box<TmplExpr>),
    LitUndefined,
    LitNull,
    LitStr(String),
    LitInt(i32),
    /// A number with a fraction or an exponent, as it is written.
    LitFloat(String),
    LitBool(bool),
    /// An object literal; an entry without a key is a spread.
    LitObj(Vec<(Option<String>, TmplExpr)>),
    LitArr(Vec<TmplExpr>),
    /// `x.name`
    StaticMember(Box<TmplExpr>, String),
    /// `x[y]`
    DynamicMember(Box<TmplExpr>, Box<TmplExpr>),
    /// `f(args)`
    FuncCall(Box<TmplExpr>, Vec<TmplExpr>),
    /// Logical negation, `!x`.
    Reverse(Box<TmplExpr>),
    /// Bitwise complement, `~x`.
    BitReverse(Box<TmplExpr>),
    /// Unary plus.
    Positive(Box<TmplExpr>),
    /// Unary minus.
    Negative(Box<TmplExpr>),
    /// `x * y`
    Multiply(Box<TmplExpr>, Box<TmplExpr>),
    /// `x / y`
    Divide(Box<TmplExpr>, Box<TmplExpr>),
    /// `x % y`
    Mod(Box<TmplExpr>, Box<TmplExpr>),
    /// `x + y`
    Plus(Box<TmplExpr>, Box<TmplExpr>),
    /// `x - y`
    Minus(Box<TmplExpr>, Box<TmplExpr>),
    /// `x < y`
    Lt(Box<TmplExpr>, Box<TmplExpr>),
    /// `x > y`
    Gt(Box<TmplExpr>, Box<TmplExpr>),
    /// `x <= y`
    Lte(Box<TmplExpr>, Box<TmplExpr>),
    /// `x >= y`
    Gte(Box<TmplExpr>, Box<TmplExpr>),
    /// `x == y`
    Eq(Box<TmplExpr>, Box<TmplExpr>),
    /// `x != y`
    Ne(Box<TmplExpr>, Box<TmplExpr>),
    /// `x === y`
    EqFull(Box<TmplExpr>, Box<TmplExpr>),
    /// `x !== y`
    NeFull(Box<TmplExpr>, Box<TmplExpr>),
    /// `x & y`
    BitAnd(Box<TmplExpr>, Box<TmplExpr>),
    /// `x ^ y`
    BitXor(Box<TmplExpr>, Box<TmplExpr>),
    /// `x | y`
    BitOr(Box<TmplExpr>, Box<TmplExpr>),
    /// `x && y`
    LogicAnd(Box<TmplExpr>, Box<TmplExpr>),
    /// `x || y`
    LogicOr(Box<TmplExpr>, Box<TmplExpr>),
    /// `x ? y : z`
    Cond(Box<TmplExpr>, Box<TmplExpr>, Box<TmplExpr>),
}

/// How tightly an expression binds; a later level binds more loosely.
#[derive(Debug, Clone, Copy, PartialEq, Eq, PartialOrd)]
pub enum TmplExprLevel {
    Lit,
    Member,
    Unary,
    Multiply,
    Plus,
    Comparison,
    Eq,
    BitAnd,
    BitXor,
    BitOr,
    LogicAnd,
    LogicOr,
    Cond,
    Comma,
}

/// The operators with one operand.
pub enum UnaryOp {
    Reverse,
    BitReverse,
    Positive,
    Negative,
}

/// The operators with two operands.
pub enum BinaryOp {
    Multiply,
    Divide,
    Mod,
    Plus,
    Minus,
    Lt,
    Gt,
    Lte,
    Gte,
    Eq,
    Ne,
    EqFull,
    NeFull,
    BitAnd,
    BitXor,
    BitOr,
    LogicAnd,
    LogicOr,
}

/// The mathematical content of a [`TmplExpr`].
pub enum ExprView {
    ScopeIndex(nat),
    Ident(Seq<char>),
    ToStringWithoutUndefined(Box<ExprView>),
    LitUndefined,
    LitNull,
    LitStr(Seq<char>),
    LitInt(i32),
    LitFloat(Seq<char>),
    LitBool(bool),
    LitObj(Seq<(Option<Seq<char>>, ExprView)>),
    LitArr(Seq<ExprView>),
    StaticMember(Box<ExprView>, Seq<char>),
    DynamicMember(Box<ExprView>, Box<ExprView>),
    FuncCall(Box<ExprView>, Seq<ExprView>),
    Unary(UnaryOp, Box<ExprView>),
    Binary(BinaryOp, Box<ExprView>, Box<ExprView>),
    Cond(Box<ExprView>, Box<ExprView>, Box<ExprView>),
}

impl BinaryOp {
    /// The level of an expression with this operator at its top.
    pub open spec fn level(self) -> TmplExprLevel {
        match self {
            BinaryOp::Multiply => TmplExprLevel::Multiply,
            BinaryOp::Divide => TmplExprLevel::Multiply,
            BinaryOp::Mod => TmplExprLevel::Multiply,
            BinaryOp::Plus => TmplExprLevel::Plus,
            BinaryOp::Minus => TmplExprLevel::Plus,
            BinaryOp::Lt => TmplExprLevel::Comparison,
            BinaryOp::Gt => TmplExprLevel::Comparison,
            BinaryOp::Lte => TmplExprLevel::Comparison,
            BinaryOp::Gte => TmplExprLevel::Comparison,
            BinaryOp::Eq => TmplExprLevel::Eq,
            BinaryOp::Ne => TmplExprLevel::Eq,
            BinaryOp::EqFull => TmplExprLevel::Eq,
            BinaryOp::NeFull => TmplExprLevel::Eq,
            BinaryOp::BitAnd => TmplExprLevel::BitAnd,
            BinaryOp::BitXor => TmplExprLevel::BitXor,
            BinaryOp::BitOr => TmplExprLevel::BitOr,
            BinaryOp::LogicAnd => TmplExprLevel::LogicAnd,
            BinaryOp::LogicOr => TmplExprLevel::LogicOr,
        }
    }
}

impl ExprView {
    /// The level of the expression.
    pub open spec fn level(self) -> TmplExprLevel {
        match self {
            ExprView::ScopeIndex(_) => TmplExprLevel::Member,
            ExprView::ToStringWithoutUndefined(_) => TmplExprLevel::Member,
            ExprView::StaticMember(_, _) => TmplExprLevel::Member,
            ExprView::DynamicMember(_, _) => TmplExprLevel::Member,
            ExprView::FuncCall(_, _) => TmplExprLevel::Member,
            ExprView::Unary(_, _) => TmplExprLevel::Unary,
            ExprView::Binary(op, _, _) => op.level(),
            ExprView::Cond(_, _, _) => TmplExprLevel::Cond,
            _ => TmplExprLevel::Lit,
        }
    }
}

/// The view of an optional string.
pub open spec fn opt_string_view(s: Option<String>) -> Option<Seq<char>> {
    match s {
        Some(s) => Some(s@),
        None => None,
    }
}

/// The views of a list of expressions.
pub open spec fn expr_views(v: Seq<TmplExpr>) -> Seq<ExprView>
    decreases v,
{
    Seq::new(
        v.len(),
        |i: int|
            if 0 <= i < v.len() {
                v[i].model()
            } else {
                arbitrary()
            },
    )
}

/// The views of the entries of an object literal.
pub open spec fn entry_views(v: Seq<(Option<String>, TmplExpr)>) -> Seq<
    (Option<Seq<char>>, ExprView),
>
    decreases v,
{
    Seq::new(
        v.len(),
        |i: int|
            if 0 <= i < v.len() {
                (opt_string_view(v[i].0), v[i].1.model())
            } else {
                arbitrary()
            },
    )
}

/// The views of a list of entries with one more entry at its end.
pub proof fn lemma_entry_views_push(v: Seq<(Option<String>, TmplExpr)>, e: (Option<String>, TmplExpr))
    ensures
        entry_views(v.push(e)) == entry_views(v).push((opt_string_view(e.0), e.1@)),
{
    assert(entry_views(v.push(e)) =~= entry_views(v).push((opt_string_view(e.0), e.1@)));
}

/// The views of a list of expressions with one more expression at its end.
pub proof fn lemma_expr_views_push(v: Seq<TmplExpr>, e: TmplExpr)
    ensures
        expr_views(v.push(e)) == expr_views(v).push(e@),
{
    assert(expr_views(v.push(e)) =~= expr_views(v).push(e@));
}

impl TmplExpr {
    /// The expression as a mathematical value.
    pub open spec fn model(self) -> ExprView
        decreases self,
    {
        match self {
            TmplExpr::ScopeIndex(n) => ExprView::ScopeIndex(n as nat),
            TmplExpr::Ident(s) => ExprView::Ident(s@),
            TmplExpr::ToStringWithoutUndefined(x) => ExprView::ToStringWithoutUndefined(
                Box::new(x.model()),
            ),
            TmplExpr::LitUndefined => ExprView::LitUndefined,
            TmplExpr::LitNull => ExprView::LitNull,
            TmplExpr::LitStr(s) => ExprView::LitStr(s@),
            TmplExpr::LitInt(n) => ExprView::LitInt(n),
            TmplExpr::LitFloat(s) => ExprView::LitFloat(s@),
            TmplExpr::LitBool(b) => ExprView::LitBool(b),
            TmplExpr::LitObj(v) => ExprView::LitObj(entry_views(v@)),
            TmplExpr::LitArr(v) => ExprView::LitArr(expr_views(v@)),
            TmplExpr::StaticMember(x, name) => ExprView::StaticMember(Box::new(x.model()), name@),
            TmplExpr::DynamicMember(x, y) => ExprView::DynamicMember(
                Box::new(x.model()),
                Box::new(y.model()),
            ),
            TmplExpr::FuncCall(f, args) => ExprView::FuncCall(
                Box::new(f.model()),
                expr_views(args@),
            ),
            TmplExpr::Reverse(x) => ExprView::Unary(UnaryOp::Reverse, Box::new(x.model())),
            TmplExpr::BitReverse(x) => ExprView::Unary(UnaryOp::BitReverse, Box::new(x.model())),
            TmplExpr::Positive(x) => ExprView::Unary(UnaryOp::Positive, Box::new(x.model())),
            TmplExpr::Negative(x) => ExprView::Unary(UnaryOp::Negative, Box::new(x.model())),
            TmplExpr::Multiply(x, y) => ExprView::Binary(
                BinaryOp::Multiply,
                Box::new(x.model()),
                Box::new(y.model()),
            ),
            TmplExpr::Divide(x, y) => ExprView::Binary(
                BinaryOp::Divide,
                Box::new(x.model()),
                Box::new(y.model()),
            ),
            TmplExpr::Mod(x, y) => ExprView::Binary(
                BinaryOp::Mod,
                Box::new(x.model()),
                Box::new(y.model()),
            ),
            TmplExpr::Plus(x, y) => ExprView::Binary(
                BinaryOp::Plus,
                Box::new(x.model()),
                Box::new(y.model()),
            ),
            TmplExpr::Minus(x, y) => ExprView::Binary(
                BinaryOp::Minus,
                Box::new(x.model()),
                Box::new(y.model()),
            ),
            TmplExpr::Lt(x, y) => ExprView::Binary(
                BinaryOp::Lt,
                Box::new(x.model()),
                Box::new(y.model()),
            ),
            TmplExpr::Gt(x, y) => ExprView::Binary(
                BinaryOp::Gt,
                Box::new(x.model()),
                Box::new(y.model()),
            ),
            TmplExpr::Lte(x, y) => ExprView::Binary(
                BinaryOp::Lte,
                Box::new(x.model()),
                Box::new(y.model()),
            ),
            TmplExpr::Gte(x, y) => ExprView::Binary(
                BinaryOp::Gte,
                Box::new(x.model()),
                Box::new(y.model()),
            ),
            TmplExpr::Eq(x, y) => ExprView::Binary(
                BinaryOp::Eq,
                Box::new(x.model()),
                Box::new(y.model()),
            ),
            TmplExpr::Ne(x, y) => ExprView::Binary(
                BinaryOp::Ne,
                Box::new(x.model()),
                Box::new(y.model()),
            ),
            TmplExpr::EqFull(x, y) => ExprView::Binary(
                BinaryOp::EqFull,
                Box::new(x.model()),
                Box::new(y.model()),
            ),
            TmplExpr::NeFull(x, y) => ExprView::Binary(
                BinaryOp::NeFull,
                Box::new(x.model()),
                Box::new(y.model()),
            ),
            TmplExpr::BitAnd(x, y) => ExprView::Binary(
                BinaryOp::BitAnd,
                Box::new(x.model()),
                Box::new(y.model()),
            ),
            TmplExpr::BitXor(x, y) => ExprView::Binary(
                BinaryOp::BitXor,
                Box::new(x.model()),
                Box::new(y.model()),
            ),
            TmplExpr::BitOr(x, y) => ExprView::Binary(
                BinaryOp::BitOr,
                Box::new(x.model()),
                Box::new(y.model()),
            ),
            TmplExpr::LogicAnd(x, y) => ExprView::Binary(
                BinaryOp::LogicAnd,
                Box::new(x.model()),
                Box::new(y.model()),
            ),
            TmplExpr::LogicOr(x, y) => ExprView::Binary(
                BinaryOp::LogicOr,
                Box::new(x.model()),
                Box::new(y.model()),
            ),
            TmplExpr::Cond(x, y, z) => ExprView::Cond(
                Box::new(x.model()),
                Box::new(y.model()),
                Box::new(z.model()),
            ),
        }
    }
}

impl View for TmplExpr {
    type V = ExprView;

    open spec fn view(&self) -> ExprView {
        self.model()
    }
}

/// What the resolution of an expression goes by.
pub struct ResolveCtx {
    /// The names bound by the enclosing loops and slots, the outermost first.
    pub scopes: Seq<Seq<char>>,
    /// The names of the script modules, which are not data fields.
    pub modules: Seq<Seq<char>>,
    /// Whether the fields met are disabled instead of indexed.
    pub disable: bool,
}

/// What the resolution of an expression reads and changes.
pub struct ResolveState {
    /// The binding map of the template.
    pub bmc: BindingMapView,
    /// The fields recorded for the value that the expression belongs to.
    pub keys: Seq<(Seq<char>, usize)>,
}

/// What becomes of the identifier `name`. If a scope binds it, it becomes
/// the position of the innermost such scope. Else, if it names a script
/// module, nothing happens. Else it is a data field: it is disabled where
/// `cx.disable` holds, and otherwise asked an index for, which is recorded
/// if there is one.
pub open spec fn resolve_ident(name: Seq<char>, cx: ResolveCtx, st: ResolveState) -> (
    ExprView,
    ResolveState,
) {
    match last_position(cx.scopes, name) {
        Some(n) => (ExprView::ScopeIndex(n), st),
        None => if cx.modules.contains(name) {
            (ExprView::Ident(name), st)
        } else if cx.disable {
            (
                ExprView::Ident(name),
                ResolveState { bmc: st.bmc.disable_field(name), keys: st.keys },
            )
        } else {
            (
                ExprView::Ident(name),
                ResolveState {
                    bmc: st.bmc.add_field(name),
                    keys: match st.bmc.index_for(name) {
                        Some(i) => st.keys.push((name, i)),
                        None => st.keys,
                    },
                },
            )
        },
    }
}

/// The expression after resolution, with the state it leaves. The
/// identifiers are taken from left to right.
pub open spec fn resolve_expr(e: ExprView, cx: ResolveCtx, st: ResolveState) -> (
    ExprView,
    ResolveState,
)
    decreases e,
{
    match e {
        ExprView::Ident(name) => resolve_ident(name, cx, st),
        ExprView::ToStringWithoutUndefined(x) => {
            let (x1, s1) = resolve_expr(*x, cx, st);
            (ExprView::ToStringWithoutUndefined(Box::new(x1)), s1)
        },
        ExprView::LitObj(items) => {
            let (items1, s1) = resolve_entries(items, cx, st);
            (ExprView::LitObj(items1), s1)
        },
        ExprView::LitArr(items) => {
            let (items1, s1) = resolve_exprs(items, cx, st);
            (ExprView::LitArr(items1), s1)
        },
        ExprView::StaticMember(x, name) => {
            let (x1, s1) = resolve_expr(*x, cx, st);
            (ExprView::StaticMember(Box::new(x1), name), s1)
        },
        ExprView::DynamicMember(x, y) => {
            let (x1, s1) = resolve_expr(*x, cx, st);
            let (y1, s2) = resolve_expr(*y, cx, s1);
            (ExprView::DynamicMember(Box::new(x1), Box::new(y1)), s2)
        },
        ExprView::FuncCall(f, args) => {
            let (f1, s1) = resolve_expr(*f, cx, st);
            let (args1, s2) = resolve_exprs(args, cx, s1);
            (ExprView::FuncCall(Box::new(f1), args1), s2)
        },
        ExprView::Unary(op, x) => {
            let (x1, s1) = resolve_expr(*x, cx, st);
            (ExprView::Unary(op, Box::new(x1)), s1)
        },
        ExprView::Binary(op, x, y) => {
            let (x1, s1) = resolve_expr(*x, cx, st);
            let (y1, s2) = resolve_expr(*y, cx, s1);
            (ExprView::Binary(op, Box::new(x1), Box::new(y1)), s2)
        },
        ExprView::Cond(x, y, z) => {
            let (x1, s1) = resolve_expr(*x, cx, st);
            let (y1, s2) = resolve_expr(*y, cx, s1);
            let (z1, s3) = resolve_expr(*z, cx, s2);
            (ExprView::Cond(Box::new(x1), Box::new(y1), Box::new(z1)), s3)
        },
        _ => (e, st),
    }
}

/// A list of expressions after resolution, the first of them first.
pub open spec fn resolve_exprs(es: Seq<ExprView>, cx: ResolveCtx, st: ResolveState) -> (
    Seq<ExprView>,
    ResolveState,
)
    decreases es,
{
    if es.len() == 0 {
        (Seq::empty(), st)
    } else {
        let (front, s1) = resolve_exprs(es.drop_last(), cx, st);
        let (last, s2) = resolve_expr(es.last(), cx, s1);
        (front.push(last), s2)
    }
}

/// The entries of an object literal after resolution, the first of them
/// first. The keys stay as they are.
pub open spec fn resolve_entries(
    es: Seq<(Option<Seq<char>>, ExprView)>,
    cx: ResolveCtx,
    st: ResolveState,
) -> (Seq<(Option<Seq<char>>, ExprView)>, ResolveState)
    decreases es,
{
    if es.len() == 0 {
        (Seq::empty(), st)
    } else {
        let (front, s1) = resolve_entries(es.drop_last(), cx, st);
        let (last, s2) = resolve_expr(es.last().1, cx, s1);
        (front.push((es.last().0, last)), s2)
    }
}

/// The context that the arguments of the resolving functions stand for.
pub open spec fn ctx_of(scope_names: &Vec<String>, modules: &Vec<String>, disable: bool) -> ResolveCtx {
    ResolveCtx {
        scopes: strings_view(scope_names@),
        modules: strings_view(modules@),
        disable,
    }
}

/// The state that a collector and a list of keys stand for.
pub open spec fn state_of(bmc: &BindingMapCollector, bmk: &BindingMapKeys) -> ResolveState {
    ResolveState { bmc: bmc@, keys: bmk@ }
}

impl TmplExpr {
    /// The level of the expression.
    pub fn level(&self) -> (r: TmplExprLevel)
        ensures
            r == self@.level(),
    {
        match self {
            TmplExpr::ScopeIndex(_) => TmplExprLevel::Member,
            TmplExpr::Ident(_) => TmplExprLevel::Lit,
            TmplExpr::ToStringWithoutUndefined(_) => TmplExprLevel::Member,
            TmplExpr::LitUndefined => TmplExprLevel::Lit,
            TmplExpr::LitNull => TmplExprLevel::Lit,
            TmplExpr::LitStr(_) => TmplExprLevel::Lit,
            TmplExpr::LitInt(_) => TmplExprLevel::Lit,
            TmplExpr::LitFloat(_) => TmplExprLevel::Lit,
            TmplExpr::LitBool(_) => TmplExprLevel::Lit,
            TmplExpr::LitObj(_) => TmplExprLevel::Lit,
            TmplExpr::LitArr(_) => TmplExprLevel::Lit,
            TmplExpr::StaticMember(_, _) => TmplExprLevel::Member,
            TmplExpr::DynamicMember(_, _) => TmplExprLevel::Member,
            TmplExpr::FuncCall(_, _) => TmplExprLevel::Member,
            TmplExpr::Reverse(_) => TmplExprLevel::Unary,
            TmplExpr::BitReverse(_) => TmplExprLevel::Unary,
            TmplExpr::Positive(_) => TmplExprLevel::Unary,
            TmplExpr::Negative(_) => TmplExprLevel::Unary,
            TmplExpr::Multiply(_, _) => TmplExprLevel::Multiply,
            TmplExpr::Divide(_, _) => TmplExprLevel::Multiply,
            TmplExpr::Mod(_, _) => TmplExprLevel::Multiply,
            TmplExpr::Plus(_, _) => TmplExprLevel::Plus,
            TmplExpr::Minus(_, _) => TmplExprLevel::Plus,
            TmplExpr::Lt(_, _) => TmplExprLevel::Comparison,
            TmplExpr::Gt(_, _) => TmplExprLevel::Comparison,
            TmplExpr::Lte(_, _) => TmplExprLevel::Comparison,
            TmplExpr::Gte(_, _) => TmplExprLevel::Comparison,
            TmplExpr::Eq(_, _) => TmplExprLevel::Eq,
            TmplExpr::Ne(_, _) => TmplExprLevel::Eq,
            TmplExpr::EqFull(_, _) => TmplExprLevel::Eq,
            TmplExpr::NeFull(_, _) => TmplExprLevel::Eq,
            TmplExpr::BitAnd(_, _) => TmplExprLevel::BitAnd,
            TmplExpr::BitXor(_, _) => TmplExprLevel::BitXor,
            TmplExpr::BitOr(_, _) => TmplExprLevel::BitOr,
            TmplExpr::LogicAnd(_, _) => TmplExprLevel::LogicAnd,
            TmplExpr::LogicOr(_, _) => TmplExprLevel::LogicOr,
            TmplExpr::Cond(_, _, _) => TmplExprLevel::Cond,
        }
    }

    /// Resolves the identifiers of the expression: one that a scope binds
    /// becomes that scope's position; a data field is registered in `bmc`,
    /// or disabled there if `should_disable` holds. Returns the fields that
    /// got an index, or nothing if `should_disable` holds.
    pub fn get_binding_map_keys(
        &mut self,
        bmc: &mut BindingMapCollector,
        scope_names: &Vec<String>,
        modules: &Vec<String>,
        should_disable: bool,
    ) -> (r: Option<BindingMapKeys>)
        ensures
            final(self)@ == resolve_expr(
                old(self)@,
                ctx_of(scope_names, modules, should_disable),
                ResolveState { bmc: old(bmc)@, keys: Seq::empty() },
            ).0,
            final(bmc)@ == resolve_expr(
                old(self)@,
                ctx_of(scope_names, modules, should_disable),
                ResolveState { bmc: old(bmc)@, keys: Seq::empty() },
            ).1.bmc,
            should_disable ==> r is None,
            !should_disable ==> r is Some && r->0@ == resolve_expr(
                old(self)@,
                ctx_of(scope_names, modules, should_disable),
                ResolveState { bmc: old(bmc)@, keys: Seq::empty() },
            ).1.keys,
    {
        let mut bmk = BindingMapKeys::new();
        self.get_binding_map_keys_rec(bmc, scope_names, modules, should_disable, &mut bmk);
        if should_disable {
            None
        } else {
            Some(bmk)
        }
    }

    /// Resolves the identifiers of the expression, from left to right, and
    /// adds to `bmk` the fields that got an index.
    pub fn get_binding_map_keys_rec(
        &mut self,
        bmc: &mut BindingMapCollector,
        scope_names: &Vec<String>,
        modules: &Vec<String>,
        should_disable: bool,
        bmk: &mut BindingMapKeys,
    )
        ensures
            final(self)@ == resolve_expr(
                old(self)@,
                ctx_of(scope_names, modules, should_disable),
                state_of(old(bmc), old(bmk)),
            ).0,
            state_of(final(bmc), final(bmk)) == resolve_expr(
                old(self)@,
                ctx_of(scope_names, modules, should_disable),
                state_of(old(bmc), old(bmk)),
            ).1,
        decreases *old(self),
    {
        let ghost cx = ctx_of(scope_names, modules, should_disable);
        match self {
            TmplExpr::ScopeIndex(_) => {},
            TmplExpr::Ident(x) => {
                match scope_position(scope_names, x.as_str()) {
                    Some(n) => {
                        *self = TmplExpr::ScopeIndex(n);
                    },
                    None => {
                        if contains_name(modules, x.as_str()) {
                        } else if should_disable {
                            bmc.disable_field(x.as_str());
                        } else if let Some(index) = bmc.add_field(x.as_str()) {
                            bmk.add(x.as_str(), index);
                        }
                    },
                }
            },
            TmplExpr::LitUndefined => {},
            TmplExpr::LitNull => {},
            TmplExpr::LitStr(_) => {},
            TmplExpr::LitInt(_) => {},
            TmplExpr::LitFloat(_) => {},
            TmplExpr::LitBool(_) => {},
            TmplExpr::LitObj(items) => {
                let ghost old_items = *items;
                let ghost st0 = state_of(bmc, bmk);
                let mut i: usize = 0;
                while i < items.len()
                    invariant
                        i <= items.len(),
                        items.len() == old_items.len(),
                        *old(self) == TmplExpr::LitObj(old_items),
                        cx == ctx_of(scope_names, modules, should_disable),
                        forall|j: int| i <= j < items.len() ==> #[trigger] items@[j] == old_items@[j],
                        entry_views(items@).take(i as int) == resolve_entries(
                            entry_views(old_items@).take(i as int),
                            cx,
                            st0,
                        ).0,
                        state_of(bmc, bmk) == resolve_entries(
                            entry_views(old_items@).take(i as int),
                            cx,
                            st0,
                        ).1,
                    decreases items.len() - i,
                {
                    let ghost before = entry_views(items@);
                    proof {
                        assert(decreases_to!(*old(self) => old(self)->LitObj_0));
                        assert(decreases_to!(old_items => old_items@));
                        assert(decreases_to!(old_items@ => old_items@[i as int]));
                        assert(decreases_to!(old_items@[i as int] => old_items@[i as int].1));
                    }
                    items[i].1.get_binding_map_keys_rec(bmc, scope_names, modules, should_disable, bmk);
                    proof {
                        let olds = entry_views(old_items@);
                        assert(olds.take(i + 1).drop_last() =~= olds.take(i as int));
                        assert(entry_views(items@).take(i + 1) =~= before.take(i as int).push(
                            entry_views(items@)[i as int],
                        ));
                    }
                    i = i + 1;
                }
                proof {
                    assert(entry_views(items@).take(i as int) =~= entry_views(items@));
                    assert(entry_views(old_items@).take(i as int) =~= entry_views(old_items@));
                }
            },
            TmplExpr::LitArr(items) => {
                Self::resolve_list(items, bmc, scope_names, modules, should_disable, bmk);
            },
            TmplExpr::FuncCall(f, args) => {
                f.get_binding_map_keys_rec(bmc, scope_names, modules, should_disable, bmk);
                Self::resolve_list(args, bmc, scope_names, modules, should_disable, bmk);
            },
            TmplExpr::ToStringWithoutUndefined(x) => {
                x.get_binding_map_keys_rec(bmc, scope_names, modules, should_disable, bmk);
            },
            TmplExpr::StaticMember(x, _) => {
                x.get_binding_map_keys_rec(bmc, scope_names, modules, should_disable, bmk);
            },
            TmplExpr::Reverse(x) => {
                x.get_binding_map_keys_rec(bmc, scope_names, modules, should_disable, bmk);
            },
            TmplExpr::BitReverse(x) => {
                x.get_binding_map_keys_rec(bmc, scope_names, modules, should_disable, bmk);
            },
            TmplExpr::Positive(x) => {
                x.get_binding_map_keys_rec(bmc, scope_names, modules, should_disable, bmk);
            },
            TmplExpr::Negative(x) => {
                x.get_binding_map_keys_rec(bmc, scope_names, modules, should_disable, bmk);
            },
            TmplExpr::DynamicMember(x, y) => {
                x.get_binding_map_keys_rec(bmc, scope_names, modules, should_disable, bmk);
                y.get_binding_map_keys_rec(bmc, scope_names, modules, should_disable, bmk);
            },
            TmplExpr::Multiply(x, y) => {
                x.get_binding_map_keys_rec(bmc, scope_names, modules, should_disable, bmk);
                y.get_binding_map_keys_rec(bmc, scope_names, modules, should_disable, bmk);
            },
            TmplExpr::Divide(x, y) => {
                x.get_binding_map_keys_rec(bmc, scope_names, modules, should_disable, bmk);
                y.get_binding_map_keys_rec(bmc, scope_names, modules, should_disable, bmk);
            },
            TmplExpr::Mod(x, y) => {
                x.get_binding_map_keys_rec(bmc, scope_names, modules, should_disable, bmk);
                y.get_binding_map_keys_rec(bmc, scope_names, modules, should_disable, bmk);
            },
            TmplExpr::Plus(x, y) => {
                x.get_binding_map_keys_rec(bmc, scope_names, modules, should_disable, bmk);
                y.get_binding_map_keys_rec(bmc, scope_names, modules, should_disable, bmk);
            },
            TmplExpr::Minus(x, y) => {
                x.get_binding_map_keys_rec(bmc, scope_names, modules, should_disable, bmk);
                y.get_binding_map_keys_rec(bmc, scope_names, modules, should_disable, bmk);
            },
            TmplExpr::Lt(x, y) => {
                x.get_binding_map_keys_rec(bmc, scope_names, modules, should_disable, bmk);
                y.get_binding_map_keys_rec(bmc, scope_names, modules, should_disable, bmk);
            },
            TmplExpr::Gt(x, y) => {
                x.get_binding_map_keys_rec(bmc, scope_names, modules, should_disable, bmk);
                y.get_binding_map_keys_rec(bmc, scope_names, modules, should_disable, bmk);
            },
            TmplExpr::Lte(x, y) => {
                x.get_binding_map_keys_rec(bmc, scope_names, modules, should_disable, bmk);
                y.get_binding_map_keys_rec(bmc, scope_names, modules, should_disable, bmk);
            },
            TmplExpr::Gte(x, y) => {
                x.get_binding_map_keys_rec(bmc, scope_names, modules, should_disable, bmk);
                y.get_binding_map_keys_rec(bmc, scope_names, modules, should_disable, bmk);
            },
            TmplExpr::Eq(x, y) => {
                x.get_binding_map_keys_rec(bmc, scope_names, modules, should_disable, bmk);
                y.get_binding_map_keys_rec(bmc, scope_names, modules, should_disable, bmk);
            },
            TmplExpr::Ne(x, y) => {
                x.get_binding_map_keys_rec(bmc, scope_names, modules, should_disable, bmk);
                y.get_binding_map_keys_rec(bmc, scope_names, modules, should_disable, bmk);
            },
            TmplExpr::EqFull(x, y) => {
                x.get_binding_map_keys_rec(bmc, scope_names, modules, should_disable, bmk);
                y.get_binding_map_keys_rec(bmc, scope_names, modules, should_disable, bmk);
            },
            TmplExpr::NeFull(x, y) => {
                x.get_binding_map_keys_rec(bmc, scope_names, modules, should_disable, bmk);
                y.get_binding_map_keys_rec(bmc, scope_names, modules, should_disable, bmk);
            },
            TmplExpr::BitAnd(x, y) => {
                x.get_binding_map_keys_rec(bmc, scope_names, modules, should_disable, bmk);
                y.get_binding_map_keys_rec(bmc, scope_names, modules, should_disable, bmk);
            },
            TmplExpr::BitXor(x, y) => {
                x.get_binding_map_keys_rec(bmc, scope_names, modules, should_disable, bmk);
                y.get_binding_map_keys_rec(bmc, scope_names, modules, should_disable, bmk);
            },
            TmplExpr::BitOr(x, y) => {
                x.get_binding_map_keys_rec(bmc, scope_names, modules, should_disable, bmk);
                y.get_binding_map_keys_rec(bmc, scope_names, modules, should_disable, bmk);
            },
            TmplExpr::LogicAnd(x, y) => {
                x.get_binding_map_keys_rec(bmc, scope_names, modules, should_disable, bmk);
                y.get_binding_map_keys_rec(bmc, scope_names, modules, should_disable, bmk);
            },
            TmplExpr::LogicOr(x, y) => {
                x.get_binding_map_keys_rec(bmc, scope_names, modules, should_disable, bmk);
                y.get_binding_map_keys_rec(bmc, scope_names, modules, should_disable, bmk);
            },
            TmplExpr::Cond(x, y, z) => {
                x.get_binding_map_keys_rec(bmc, scope_names, modules, should_disable, bmk);
                y.get_binding_map_keys_rec(bmc, scope_names, modules, should_disable, bmk);
                z.get_binding_map_keys_rec(bmc, scope_names, modules, should_disable, bmk);
            },
        }
    }

    /// Resolves a list of expressions, the first of them first.
    fn resolve_list(
        items: &mut Vec<TmplExpr>,
        bmc: &mut BindingMapCollector,
        scope_names: &Vec<String>,
        modules: &Vec<String>,
        should_disable: bool,
        bmk: &mut BindingMapKeys,
    )
        ensures
            expr_views(final(items)@) == resolve_exprs(
                expr_views(old(items)@),
                ctx_of(scope_names, modules, should_disable),
                state_of(old(bmc), old(bmk)),
            ).0,
            state_of(final(bmc), final(bmk)) == resolve_exprs(
                expr_views(old(items)@),
                ctx_of(scope_names, modules, should_disable),
                state_of(old(bmc), old(bmk)),
            ).1,
        decreases *old(items),
    {
        let ghost cx = ctx_of(scope_names, modules, should_disable);
        let ghost old_items = *items;
        let ghost st0 = state_of(bmc, bmk);
        let mut i: usize = 0;
        while i < items.len()
            invariant
                i <= items.len(),
                items.len() == old_items.len(),
                *old(items) == old_items,
                cx == ctx_of(scope_names, modules, should_disable),
                forall|j: int| i <= j < items.len() ==> #[trigger] items@[j] == old_items@[j],
                expr_views(items@).take(i as int) == resolve_exprs(
                    expr_views(old_items@).take(i as int),
                    cx,
                    st0,
                ).0,
                state_of(bmc, bmk) == resolve_exprs(expr_views(old_items@).take(i as int), cx, st0).1,
            decreases items.len() - i,
        {
            let ghost before = expr_views(items@);
            proof {
                assert(decreases_to!(old_items => old_items@));
                assert(decreases_to!(old_items@ => old_items@[i as int]));
            }
            items[i].get_binding_map_keys_rec(bmc, scope_names, modules, should_disable, bmk);
            proof {
                let olds = expr_views(old_items@);
                assert(olds.take(i + 1).drop_last() =~= olds.take(i as int));
                assert(expr_views(items@).take(i + 1) =~= before.take(i as int).push(
                    expr_views(items@)[i as int],
                ));
            }
            i = i + 1;
        }
        proof {
            assert(expr_views(items@).take(i as int) =~= expr_views(items@));
            assert(expr_views(old_items@).take(i as int) =~= expr_views(old_items@));
        }
    }
}

} // verus!
